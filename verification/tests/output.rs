use java_atlas::java_ast::model::{JavaTypeRef, TypeKind};
use java_atlas::java_ast::parse::parse_java_file;
use java_atlas::java_ast::resolve::resolve_files;
use java_atlas::output::compact::{is_boring_no_arg_constructor, property_suffix};
use java_atlas::output::json_value::{prune_empty_values, JsonValue};
use java_atlas::output::jsonl::{file_name, file_record, package_jsonl_path, package_name, short_file_path};
use java_atlas::output::{render, render_jsonl_packages, FileOutput, Format};

/// A stand-in for the JSON encoding of a record: just its path.
fn path_line(file: &FileOutput) -> String {
    format!("{{\"path\":\"{}\"}}\n", file_record(file).path)
}

#[test]
fn jsonl_renders_one_compact_file_record_per_line() {
    let ast = parse_java_file(
        r#"
            package com.example;
            public class Foo {
                private int x;
            }
        "#,
    )
    .expect("parse");
    let files = vec![FileOutput { path: "src/main/java/com/example/Foo.java", ast: &ast }];
    let record = file_record(&files[0]);
    assert_eq!(record.path, "Foo.java");
    assert_eq!(record.package, "com.example");
    assert!(record.imports.is_empty());
    assert_eq!(record.types[0].ty.kind, TypeKind::Class);
    assert_eq!(record.types[0].ty.name, "Foo");

    let lines = files.iter().map(path_line).collect::<Vec<_>>();
    let rendered = render(&files, Format::Jsonl, &lines).expect("render");
    assert_eq!(rendered.lines().count(), 1);
}

#[test]
fn jsonl_packages_are_grouped_and_path_shortened() {
    let ast_a = parse_java_file("package a; public class A {}").expect("parse");
    let ast_b = parse_java_file("package a; public class Nested {}").expect("parse");
    let ast_default = parse_java_file("public class DefaultPackage {}").expect("parse");
    let files = vec![
        FileOutput { path: "/repo/src/main/java/a/A.java", ast: &ast_a },
        FileOutput { path: "/repo/src/main/java/a/internal/Nested.java", ast: &ast_b },
        FileOutput { path: "/repo/src/main/java/DefaultPackage.java", ast: &ast_default },
    ];
    let lines = files.iter().map(path_line).collect::<Vec<_>>();

    let packages = render_jsonl_packages(&files, &lines);

    assert_eq!(packages.len(), 2);
    assert_eq!(packages[0].package, "_default_");
    assert_eq!(packages[0].relative_path, "_default_.jsonl");
    assert_eq!(packages[1].package, "a");
    assert_eq!(packages[1].relative_path, "a.jsonl");
    assert_eq!(packages[1].contents.lines().count(), 2);
    assert!(packages[1].contents.contains("\"path\":\"A.java\""));
    assert!(packages[1].contents.contains("\"path\":\"internal/Nested.java\""));
    assert!(packages[0].contents.contains("\"path\":\"DefaultPackage.java\""));
}

#[test]
fn jsonl_compacts_accessors_and_boring_constructors() {
    let source = r#"
            package com.example;

            public class UserSendCodeRequest {
                private String to;
                private String channel;
                private boolean active;

                public String getTo() { return to; }
                public UserSendCodeRequest setTo(String to) { this.to = to; return this; }
                public String getChannel() { return channel; }
                public void setChannel(String channel) { this.channel = channel; }
                public boolean isActive() { return active; }
            }
        "#;
    let ast = parse_java_file(source).expect("parse");
    let files = vec![FileOutput { path: "src/main/java/com/example/UserSendCodeRequest.java", ast: &ast }];
    let record = file_record(&files[0]);
    let ty = &record.types[0];

    assert_eq!(ty.field_accessors[0][0], "getter");
    assert_eq!(ty.field_accessors[0][1], "setter");
    assert_eq!(ty.field_accessors[2], vec!["getter"]);
    assert!(ty.methods.is_empty());
}

#[test]
fn jsonl_exposes_resolved_fqn_across_files() {
    let mut asts = [
        "package com.example.model; public class User {}",
        "package com.example.service; import com.example.model.User; \
         public class Service { private User user; }",
    ]
    .iter()
    .map(|source| parse_java_file(source).expect("parse"))
    .collect::<Vec<_>>();
    resolve_files(&mut asts);
    let paths = [
        "src/main/java/com/example/model/User.java",
        "src/main/java/com/example/service/Service.java",
    ];
    let files = paths.iter().zip(asts.iter()).map(|(path, ast)| FileOutput { path, ast }).collect::<Vec<_>>();
    let lines = files.iter().map(path_line).collect::<Vec<_>>();

    let packages = render_jsonl_packages(&files, &lines);
    assert!(packages.iter().any(|package| package.package == "com.example.service"));
    let record = file_record(&files[1]);
    match &record.types[0].ty.fields[0].ty {
        JavaTypeRef::Reference(r) => assert_eq!(r.resolved_fqn.as_deref(), Some("com.example.model.User")),
        other => panic!("unexpected {:?}", other),
    }
}

#[test]
fn boring_constructors_are_dropped_from_records() {
    let source = r#"
            package com.example;

            public class PlainDto {
                public PlainDto() {}
                public PlainDto(String name) {}
            }

            public class ConfiguredDto {
                @Inject
                public ConfiguredDto() {}
            }
        "#;
    let ast = parse_java_file(source).expect("parse");
    assert!(is_boring_no_arg_constructor(&ast.types[0].constructors[0]));
    assert!(!is_boring_no_arg_constructor(&ast.types[0].constructors[1]));
    assert!(!is_boring_no_arg_constructor(&ast.types[1].constructors[0]));
    let files = vec![FileOutput { path: "src/PlainDto.java", ast: &ast }];
    let record = file_record(&files[0]);
    assert_eq!(record.types[0].constructors.len(), 1);
    assert_eq!(record.types[0].constructors[0].args.len(), 1);
    assert_eq!(record.types[1].constructors.len(), 1);
}

#[test]
fn package_shards_sort_packages_and_keep_file_order() {
    let ast_b = parse_java_file("package b; class X {}").expect("parse");
    let ast_a = parse_java_file("package a; class Y {}").expect("parse");
    let ast_ab = parse_java_file("package a.b; class Z {}").expect("parse");
    let files = vec![
        FileOutput { path: "b/X.java", ast: &ast_b },
        FileOutput { path: "a/Y.java", ast: &ast_a },
        FileOutput { path: "a/b/Z.java", ast: &ast_ab },
        FileOutput { path: "b/W.java", ast: &ast_b },
    ];
    let lines = vec!["1\n".to_string(), "2\n".to_string(), "3\n".to_string(), "4\n".to_string()];
    let packages = render_jsonl_packages(&files, &lines);
    let names = packages.iter().map(|p| p.package.as_str()).collect::<Vec<_>>();
    assert_eq!(names, vec!["a", "a.b", "b"]);
    assert_eq!(packages[1].relative_path, "a/b.jsonl");
    assert_eq!(packages[2].contents, "1\n4\n");
    let all = render(&files, Format::Jsonl, &lines).expect("render");
    assert_eq!(all, "2\n3\n1\n4\n");
}

#[test]
fn json_format_passes_the_encoded_document_through() {
    let ast = parse_java_file("class A {}").expect("parse");
    let files = vec![FileOutput { path: "A.java", ast: &ast }];
    let doc = vec!["[]".to_string()];
    assert_eq!(render(&files, Format::Json, &doc).expect("render"), "[]");
}

#[test]
fn paths_are_shortened_below_the_package() {
    assert_eq!(short_file_path("/repo/src/main/java/a/internal/Nested.java", "a"), "internal/Nested.java");
    assert_eq!(short_file_path("/repo/src/main/java/com/x/Foo.java", "com.x"), "Foo.java");
    assert_eq!(short_file_path("/elsewhere/Foo.java", "com.x"), "Foo.java");
    assert_eq!(short_file_path("/repo/DefaultPackage.java", "_default_"), "DefaultPackage.java");
    assert_eq!(file_name("dir\\sub/F.java"), "F.java");
    assert_eq!(package_jsonl_path("com.example.model"), "com/example/model.jsonl");
    assert_eq!(package_jsonl_path("_default_"), "_default_.jsonl");
    let ast = parse_java_file("package ; class A {}").expect("parse");
    assert_eq!(package_name(&ast), "_default_");
}

#[test]
fn property_suffix_capitalizes_first_letter() {
    assert_eq!(property_suffix(&"name".to_string()), "Name");
    assert_eq!(property_suffix(&"".to_string()), "");
}

fn member(key: &str, value: JsonValue) -> (String, JsonValue) {
    (key.to_string(), value)
}

#[test]
fn pruning_drops_null_and_empty_array_members_at_every_depth() {
    let value = JsonValue::Object(vec![
        member("a", JsonValue::Null),
        member("b", JsonValue::Array(vec![])),
        member(
            "c",
            JsonValue::Array(vec![JsonValue::Object(vec![
                member("d", JsonValue::Null),
                member("e", JsonValue::Number("1".to_string())),
            ])]),
        ),
        member("f", JsonValue::Object(vec![])),
        member("g", JsonValue::Text("x".to_string())),
        member("h", JsonValue::Bool(false)),
    ]);
    let expected = JsonValue::Object(vec![
        member("c", JsonValue::Array(vec![JsonValue::Object(vec![member("e", JsonValue::Number("1".to_string()))])])),
        member("f", JsonValue::Object(vec![])),
        member("g", JsonValue::Text("x".to_string())),
        member("h", JsonValue::Bool(false)),
    ]);
    assert_eq!(format!("{:?}", prune_empty_values(&value)), format!("{:?}", expected));
}

#[test]
fn pruning_keeps_array_elements_and_scalars() {
    let value = JsonValue::Array(vec![JsonValue::Null, JsonValue::Array(vec![]), JsonValue::Number("2".to_string())]);
    assert_eq!(format!("{:?}", prune_empty_values(&value)), format!("{:?}", value));
    let scalar = JsonValue::Text("s".to_string());
    assert_eq!(format!("{:?}", prune_empty_values(&scalar)), format!("{:?}", scalar));
}
