use java_atlas::java_ast::display::type_ref_string;
use java_atlas::java_ast::error::JavaAstError;
use java_atlas::java_ast::extract_markdown;
use java_atlas::java_ast::javadoc::parse_javadoc;
use java_atlas::java_ast::model::{
    JavaAnnotationArgument, JavaAnnotationValue, JavaPrimitiveType, JavaTypeArgument, JavaTypeRef, JavaWildcardBound,
    TypeKind,
};
use java_atlas::java_ast::parse::parse_java_file;
use java_atlas::java_ast::syntax::span_text;
use java_atlas::markdown::validate_markdown;

#[test]
fn generated_markdown_is_structurally_valid() {
    let source = r#"
            package com.example;

            import java.util.Optional;

            public class UserService {
                private final UserRepository repository;

                public UserService(UserRepository repository) {
                    this.repository = repository;
                }

                public Optional<User> findById(Long id) {
                    return Optional.empty();
                }

                public static class Inner {
                    private int value;
                }
            }

            public enum Status {
                ACTIVE,
                INACTIVE
            }
        "#;

    let markdown = extract_markdown(source).expect("Java source should render to Markdown");

    validate_markdown(&markdown).expect("generated Markdown should be structurally valid");
    assert!(markdown.contains("## Class `UserService`"));
    assert!(markdown.contains("### Fields"));
    assert!(markdown.contains("### Class `Inner`"));
    assert!(markdown.contains("## Enum `Status`"));
}

#[test]
fn parses_outer_type_without_promoting_nested_type() {
    let source = r#"
            package com.example;

            public class UserService {
                private final UserRepository repository;

                public UserService(UserRepository repository) {
                    this.repository = repository;
                }

                public User findById(Long id) {
                    return null;
                }

                public static class Inner {
                    private int value;
                }
            }

            public enum Status {
                ACTIVE,
                INACTIVE
            }
        "#;

    let file = parse_java_file(source).expect("source should parse");

    assert_eq!(file.types.len(), 2);
    assert_eq!(file.types[0].name, "UserService");
    assert_eq!(file.types[0].kind, TypeKind::Class);
    assert_eq!(file.types[0].fields.len(), 1);
    assert_eq!(file.types[0].fields[0].name, "repository");
    assert_eq!(file.types[0].methods.len(), 1);
    assert_eq!(file.types[0].methods[0].name, "findById");
    assert_eq!(file.types[0].nested_types.len(), 1);
    assert_eq!(file.types[0].nested_types[0].name, "Inner");
    assert_eq!(file.types[0].nested_types[0].fields.len(), 1);
    assert_eq!(file.types[0].nested_types[0].fields[0].name, "value");
    assert_eq!(file.types[1].name, "Status");
    assert_eq!(file.types[1].kind, TypeKind::Enum);
}

#[test]
fn parses_package_imports_and_enum_constants() {
    let file = parse_java_file(
        "package com.example.app;\nimport java.util.List;\nimport java.io.*;\npublic enum Status { ACTIVE, INACTIVE }",
    )
    .expect("parse");
    assert_eq!(file.package.as_deref(), Some("com.example.app"));
    assert_eq!(file.imports, vec!["java.util.List".to_string(), "java.io".to_string(), "*".to_string()]);
    assert_eq!(file.types[0].enum_constants, vec!["ACTIVE".to_string(), "INACTIVE".to_string()]);
    assert!(file.types[0].body_range.is_some());
}

#[test]
fn file_without_package_has_none() {
    let file = parse_java_file("class A {}").expect("parse");
    assert!(file.package.is_none());
    assert!(file.imports.is_empty());
    assert_eq!(file.types.len(), 1);
    assert_eq!(file.types[0].name, "A");
    assert_eq!(file.types[0].range, (0, 10));
    assert_eq!(file.types[0].body_range, Some((8, 10)));
}

#[test]
fn separates_annotations_from_modifiers() {
    let source = r#"
            @Entity
            public record User(
                @NotNull String name,
                @Size(max = 20) String... tags
            ) {
                @Column(name = "email")
                private final String email;

                @Deprecated
                public String email(@NotNull String fallback) {
                    return email;
                }
            }
        "#;
    let file = parse_java_file(source).expect("parse");
    let ty = &file.types[0];
    assert_eq!(ty.kind, TypeKind::Record);
    assert_eq!(ty.annotations.len(), 1);
    assert_eq!(ty.annotations[0].name, "Entity");
    assert_eq!(ty.modifiers, vec!["public".to_string()]);
    assert_eq!(ty.record_components.len(), 2);
    assert_eq!(ty.record_components[0].name, "name");
    assert_eq!(ty.record_components[0].annotations[0].name, "NotNull");
    assert!(!ty.record_components[0].varargs);
    assert_eq!(ty.record_components[1].name, "tags");
    assert!(ty.record_components[1].varargs);
    assert_eq!(ty.record_components[1].annotations[0].name, "Size");
    match &ty.record_components[1].annotations[0].arguments[0] {
        JavaAnnotationArgument::Named { name, value: JavaAnnotationValue::Number(n) } => {
            assert_eq!(name, "max");
            assert_eq!(n, "20");
        }
        other => panic!("unexpected argument {:?}", other),
    }
    assert_eq!(ty.fields[0].name, "email");
    assert_eq!(ty.fields[0].modifiers, vec!["private".to_string(), "final".to_string()]);
    assert_eq!(ty.fields[0].annotations[0].name, "Column");
    assert_eq!(ty.methods[0].annotations[0].name, "Deprecated");
    assert_eq!(ty.methods[0].modifiers, vec!["public".to_string()]);
    assert_eq!(ty.methods[0].args[0].annotations[0].name, "NotNull");
}

#[test]
fn parses_structured_type_references() {
    let source = r#"
            import java.util.List;
            import java.util.Map;

            public class Types extends Base<String> implements Handler<Map<String, List<Integer[]>>> {
                private List<? extends Number>[] numbers;
                private String legacy[];
                public void accept(List<? super User> users, @Valid String[] names) {}
                public String legacyReturn()[];
                private int a, b;
            }
        "#;
    let file = parse_java_file(source).expect("parse");
    let ty = &file.types[0];
    match &ty.extends[0] {
        JavaTypeRef::Reference(r) => {
            assert_eq!(r.name, "Base");
            assert_eq!(r.args.len(), 1);
        }
        other => panic!("unexpected {:?}", other),
    }
    match &ty.implements[0] {
        JavaTypeRef::Reference(r) => {
            assert_eq!(r.name, "Handler");
            match &r.args[0] {
                JavaTypeArgument::Type(JavaTypeRef::Reference(m)) => {
                    assert_eq!(m.name, "Map");
                    assert_eq!(m.args.len(), 2);
                }
                other => panic!("unexpected {:?}", other),
            }
        }
        other => panic!("unexpected {:?}", other),
    }
    match &ty.fields[0].ty {
        JavaTypeRef::Array { element, dimensions } => {
            assert_eq!(*dimensions, 1);
            match element.as_ref() {
                JavaTypeRef::Reference(r) => match &r.args[0] {
                    JavaTypeArgument::Wildcard(JavaTypeRef::Wildcard { bound: Some(JavaWildcardBound::Extends(b)), .. }) => {
                        assert!(matches!(b.as_ref(), JavaTypeRef::Reference(n) if n.name == "Number"));
                    }
                    other => panic!("unexpected {:?}", other),
                },
                other => panic!("unexpected {:?}", other),
            }
        }
        other => panic!("unexpected {:?}", other),
    }
    assert!(matches!(&ty.fields[1].ty, JavaTypeRef::Array { dimensions: 1, .. }));
    assert_eq!(ty.fields[1].name, "legacy");
    assert!(matches!(ty.methods[0].return_type, Some(JavaTypeRef::Void)));
    match &ty.methods[0].args[0].ty {
        JavaTypeRef::Reference(r) => assert!(matches!(
            &r.args[0],
            JavaTypeArgument::Wildcard(JavaTypeRef::Wildcard { bound: Some(JavaWildcardBound::Super(_)), .. })
        )),
        other => panic!("unexpected {:?}", other),
    }
    assert!(matches!(&ty.methods[1].return_type, Some(JavaTypeRef::Array { dimensions: 1, .. })));
    assert_eq!(ty.fields.len(), 4);
    assert_eq!(ty.fields[2].name, "a");
    assert_eq!(ty.fields[3].name, "b");
    assert!(matches!(ty.fields[3].ty, JavaTypeRef::Primitive(JavaPrimitiveType::Int)));
}

#[test]
fn parses_throws_type_parameters_and_qualified_types() {
    let source = r#"
            public class Types<T extends Serializable & Comparable<T>> {
                public <C extends Config & AutoCloseable> Types() throws ConfigurationException {}

                public <E extends Exception> Map.Entry<String, List<User.Id>> read()
                        throws IOException, Outer.InnerException {
                    return null;
                }
            }
        "#;
    let file = parse_java_file(source).expect("parse");
    let ty = &file.types[0];
    assert_eq!(ty.type_parameters.len(), 1);
    assert_eq!(ty.type_parameters[0].name, "T");
    assert_eq!(ty.type_parameters[0].bounds.len(), 2);
    assert_eq!(ty.constructors[0].type_parameters[0].name, "C");
    assert_eq!(ty.constructors[0].throws.len(), 1);
    let m = &ty.methods[0];
    assert_eq!(m.throws.len(), 2);
    match &m.throws[1] {
        JavaTypeRef::Reference(r) => {
            assert_eq!(r.name, "InnerException");
            assert!(matches!(r.qualifier.as_deref(), Some(JavaTypeRef::Reference(q)) if q.name == "Outer"));
        }
        other => panic!("unexpected {:?}", other),
    }
    match &m.return_type {
        Some(JavaTypeRef::Reference(r)) => {
            assert_eq!(r.name, "Entry");
            assert_eq!(r.args.len(), 2);
            assert!(matches!(r.qualifier.as_deref(), Some(JavaTypeRef::Reference(q)) if q.name == "Map"));
        }
        other => panic!("unexpected {:?}", other),
    }
}

#[test]
fn parses_annotation_values_and_defaults() {
    let source = r#"
            @Column(name = "email", nullable = false, roles = {"ADMIN", "USER"}, nested = @Inner(count = 2), type = String.class)
            public @interface Labels {
                @Deprecated
                String value() default "user";
                int count() default 1 + 2;
            }
        "#;
    let file = parse_java_file(source).expect("parse");
    let ty = &file.types[0];
    assert_eq!(ty.kind, TypeKind::Annotation);
    let args = &ty.annotations[0].arguments;
    assert_eq!(args.len(), 5);
    assert!(matches!(&args[0], JavaAnnotationArgument::Named { value: JavaAnnotationValue::String(s), .. } if s == "\"email\""));
    assert!(matches!(&args[1], JavaAnnotationArgument::Named { value: JavaAnnotationValue::Boolean(false), .. }));
    assert!(matches!(&args[2], JavaAnnotationArgument::Named { value: JavaAnnotationValue::Array(v), .. } if v.len() == 2));
    assert!(matches!(&args[3], JavaAnnotationArgument::Named { value: JavaAnnotationValue::Annotation(a), .. } if a.name == "Inner"));
    assert!(matches!(&args[4], JavaAnnotationArgument::Named { value: JavaAnnotationValue::ClassLiteral(_), .. }));
    assert_eq!(ty.annotation_elements.len(), 2);
    assert_eq!(ty.annotation_elements[0].name, "value");
    assert_eq!(ty.annotation_elements[0].annotations[0].name, "Deprecated");
    assert!(matches!(&ty.annotation_elements[0].default_value, Some(JavaAnnotationValue::String(s)) if s == "\"user\""));
    assert!(matches!(&ty.annotation_elements[1].default_value, Some(JavaAnnotationValue::Expression(s)) if s == "1 + 2"));
}

#[test]
fn captures_leading_javadocs_only() {
    let source = r#"
            /**
             * Service for users.
             *
             * @since 1.0
             */
            public class UserService {
                /** Repository storage. */
                private final UserRepository repository;

                /* Ordinary comment. */
                private int x;

                /**
                 * Finds a user.
                 * Continues the description.
                 *
                 * @param id user id
                 *   continued tag text
                 * @return optional user
                 */
                public Optional<User> findById(Long id) {
                    return Optional.empty();
                }

                public void run() {}
            }
        "#;
    let file = parse_java_file(source).expect("parse");
    let ty = &file.types[0];
    let doc = ty.documentation.as_ref().expect("type docs");
    assert_eq!(doc.description, "Service for users.");
    assert_eq!(doc.tags.len(), 1);
    assert_eq!(doc.tags[0].name, "since");
    assert_eq!(doc.tags[0].text, "1.0");
    assert_eq!(ty.fields[0].documentation.as_ref().expect("field docs").description, "Repository storage.");
    assert!(ty.fields[1].documentation.is_none());
    let mdoc = ty.methods[0].documentation.as_ref().expect("method docs");
    assert_eq!(mdoc.description, "Finds a user. Continues the description.");
    assert_eq!(mdoc.tags[0].name, "param");
    assert_eq!(mdoc.tags[0].text, "id user id continued tag text");
    assert_eq!(mdoc.tags[1].name, "return");
    assert_eq!(mdoc.tags[1].text, "optional user");
    assert!(ty.methods[1].documentation.is_none());
}

#[test]
fn node_text_follows_byte_offsets_of_multibyte_source() {
    let source = "é=ab";
    assert_eq!(span_text(source, 2, 3), "=");
    assert_eq!(span_text(source, 0, 2), "é");
    assert_eq!(span_text(source, 1, 3), "");
    assert_eq!(span_text(source, 3, 2), "");
    assert_eq!(span_text(source, 0, 9), "");
}

#[test]
fn primitive_keywords_read_back_as_their_types() {
    for (kw, p) in [
        ("boolean", JavaPrimitiveType::Boolean),
        ("byte", JavaPrimitiveType::Byte),
        ("short", JavaPrimitiveType::Short),
        ("int", JavaPrimitiveType::Int),
        ("long", JavaPrimitiveType::Long),
        ("char", JavaPrimitiveType::Char),
        ("float", JavaPrimitiveType::Float),
        ("double", JavaPrimitiveType::Double),
    ] {
        assert_eq!(JavaPrimitiveType::from_source(kw), Some(p));
        assert_eq!(type_ref_string(&JavaTypeRef::Primitive(p)), kw);
    }
    assert_eq!(JavaPrimitiveType::from_source("Integer"), None);
}

#[test]
fn error_messages_read_as_sentences() {
    assert_eq!(JavaAstError::ParseFailed.message(), "Failed to parse Java source");
    assert_eq!(
        JavaAstError::MarkdownInvalid("empty h2 heading".to_string()).message(),
        "Markdown validation failed: empty h2 heading"
    );
    assert_eq!(JavaAstError::LanguageSetup("v".to_string()).message(), "Language setup error: v");
    assert_eq!(JavaAstError::QueryFailed("q".to_string()).message(), "Query failed: q");
}

#[test]
fn javadoc_comments_split_into_description_and_tags() {
    let doc = parse_javadoc("/**\n * User service.\n * @since 1.0\n */");
    assert_eq!(doc.description, "User service.");
    assert_eq!(doc.tags.len(), 1);
    assert_eq!(doc.tags[0].name, "since");
    assert_eq!(doc.tags[0].text, "1.0");
    let one_line = parse_javadoc("/** Repository docs. @see UserRepository */");
    assert_eq!(one_line.description, "Repository docs. @see UserRepository");
    assert!(one_line.tags.is_empty());
}

#[test]
fn record_components_belong_to_records_only() {
    let file = parse_java_file("record P(int x, String y) {} class C { int z; } enum E { A }").expect("parse");
    assert_eq!(file.types.len(), 3);
    assert_eq!(file.types[0].record_components.len(), 2);
    assert_eq!(file.types[0].record_components[1].name, "y");
    assert!(file.types[1].record_components.is_empty());
    assert!(file.types[2].record_components.is_empty());
    assert!(file.types[1].enum_constants.is_empty());
    assert_eq!(file.types[2].enum_constants, vec!["A".to_string()]);
}

#[test]
fn wildcard_import_is_split_into_package_and_star() {
    let file = parse_java_file("package p; import com.foo.*; import a.B; class C {}").expect("parse");
    assert_eq!(file.package.as_deref(), Some("p"));
    assert_eq!(file.imports, vec!["com.foo".to_string(), "*".to_string(), "a.B".to_string()]);
    assert_eq!(file.types.len(), 1);
    assert_eq!(file.types[0].name, "C");
}

#[test]
fn single_file_markdown_omits_imports_and_compacts() {
    let md = extract_markdown(
        "package p; import java.util.List; public class D { private int n; public int getN() { return n; } public D() {} }",
    )
    .expect("markdown");
    assert!(!md.contains("java.util.List"));
    assert!(md.contains("`n` [getter]"));
    assert!(!md.contains("`getN`"));
    assert!(!md.contains("Constructors"));
    assert!(validate_markdown(&md).is_ok());
}
