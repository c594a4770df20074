use java_atlas::java_ast::parse::parse_java_file;
use java_atlas::markdown::{validate_markdown, MarkdownError};
use java_atlas::output::{render, FileOutput, Format};

#[test]
fn validates_basic_generated_markdown_shape() {
    let markdown = "# Java Atlas\n\n## Class `User`\n\n### Methods\n\n#### `findById`\n";

    validate_markdown(markdown).expect("generated Markdown should be structurally valid");
}

#[test]
fn rejects_empty_headings() {
    let error = validate_markdown("# Java Atlas\n\n##\n\nbody").unwrap_err();

    assert_eq!(error, MarkdownError::EmptyHeading { level: 2 });
}

#[test]
fn rejects_upward_heading_level_jumps() {
    let error = validate_markdown("# Java Atlas\n\n### Methods\n").unwrap_err();

    assert_eq!(
        error,
        MarkdownError::HeadingLevelJump { previous: 1, current: 3, text: "Methods".to_string() }
    );
}

#[test]
fn rejects_markdown_without_headings() {
    assert_eq!(validate_markdown("just text").unwrap_err(), MarkdownError::NoHeadings);
}

#[test]
fn markdown_errors_read_as_sentences() {
    assert_eq!(MarkdownError::EmptyHeading { level: 2 }.message(), "empty h2 heading");
    assert_eq!(
        MarkdownError::HeadingLevelJump { previous: 1, current: 3, text: "Methods".to_string() }.message(),
        "heading level jumps from h1 to h3 at `Methods`"
    );
    assert_eq!(MarkdownError::NoHeadings.message(), "markdown contains no headings");
    assert_eq!(MarkdownError::UnmatchedHeadingEnd.message(), "heading ended without a start event");
    assert_eq!(MarkdownError::UnterminatedHeading.message(), "heading started without an end event");
}

#[test]
fn full_markdown_contains_expected_sections() {
    let source = r#"
            package com.example;

            import java.util.Optional;

            @Service
            public class UserService<T extends AutoCloseable> {
                @Inject
                private final UserRepository repository;

                @Autowired
                public UserService(UserRepository repository) throws ConfigurationException {
                    this.repository = repository;
                }

                @Deprecated
                public <E extends Exception> Optional<User> findById(@NotNull Long id) throws E {
                    return Optional.empty();
                }

                public static class Inner {
                    private int value;
                }
            }

            public enum Status {
                ACTIVE,
                INACTIVE
            }
        "#;

    let ast = parse_java_file(source).expect("parse");
    let files = vec![FileOutput { path: "src/UserService.java", ast: &ast }];
    let markdown = render(&files, Format::Markdown, &Vec::new()).expect("render");

    assert!(markdown.starts_with("# Java Atlas\n\n"));
    assert!(markdown.contains("## File: `src/UserService.java`"));
    assert!(markdown.contains("### Class `UserService`"));
    assert!(markdown.contains("**Annotations:** `@Service`"));
    assert!(markdown.contains("**Type Parameters:** `T extends AutoCloseable`"));
    assert!(markdown.contains("#### Fields"));
    assert!(markdown.contains("| `@Inject` | `private final` | `UserRepository` | `repository` |"));
    assert!(markdown.contains("**Throws:** `ConfigurationException`"));
    assert!(markdown.contains("**Arguments:** `@NotNull Long id`"));
    assert!(markdown.contains("#### Class `Inner`"));
    assert!(markdown.contains("### Enum `Status`"));
    assert_eq!(markdown.matches("# Java Atlas").count(), 1);
}

#[test]
fn multiple_files_share_one_atlas_heading() {
    let ast_a = parse_java_file("package a; public class A {}").expect("parse a");
    let ast_b = parse_java_file("package b; public class B {}").expect("parse b");
    let files = vec![
        FileOutput { path: "src/A.java", ast: &ast_a },
        FileOutput { path: "src/B.java", ast: &ast_b },
    ];
    let markdown = render(&files, Format::Markdown, &Vec::new()).expect("render");

    assert_eq!(markdown.matches("# Java Atlas").count(), 1);
    assert!(markdown.contains("## File: `src/A.java`"));
    assert!(markdown.contains("## File: `src/B.java`"));
    assert!(markdown.contains("### Class `A`"));
    assert!(markdown.contains("### Class `B`"));
}

#[test]
fn deep_nesting_clamps_headings_at_h6() {
    let ast = parse_java_file("class A { class B { class C { class D { class E {} } } } }").expect("parse");
    let files = vec![FileOutput { path: "A.java", ast: &ast }];
    let markdown = render(&files, Format::Markdown, &Vec::new()).expect("render");
    assert!(markdown.contains("###### Class `D`"));
    assert!(markdown.contains("###### Class `E`"));
    assert!(!markdown.contains("#######"));
}

#[test]
fn markdown_omits_imports() {
    let ast = parse_java_file("package a; import java.util.List; public class A {}").expect("parse");
    let files = vec![FileOutput { path: "src/A.java", ast: &ast }];
    let markdown = render(&files, Format::Markdown, &Vec::new()).expect("render");
    assert!(!markdown.contains("java.util.List"));
    assert!(!markdown.contains("Imports"));
    assert!(markdown.contains("**Package:** `a`"));
}

#[test]
fn markdown_of_file_without_types_omits_imports() {
    let ast = parse_java_file("package a; import java.util.List;").expect("parse");
    assert_eq!(ast.imports, vec!["java.util.List".to_string()]);
    let files = vec![FileOutput { path: "src/A.java", ast: &ast }];
    let markdown = render(&files, Format::Markdown, &Vec::new()).expect("render");
    assert_eq!(markdown, "# Java Atlas\n\n## File: `src/A.java`\n\n**Package:** `a`\n\n");
}

#[test]
fn markdown_skips_plain_no_arg_constructors() {
    let source = r#"
            package com.example;

            public class PlainDto {
                public PlainDto() {}
                public PlainDto(String name) {}
            }

            public class ConfiguredDto {
                @Inject
                public ConfiguredDto() {}
            }
        "#;
    let ast = parse_java_file(source).expect("parse");
    let files = vec![FileOutput { path: "src/PlainDto.java", ast: &ast }];
    let markdown = render(&files, Format::Markdown, &Vec::new()).expect("render");
    assert_eq!(markdown.matches("##### `PlainDto`").count(), 1);
    assert!(markdown.contains("##### `PlainDto`\n\n**Modifiers:** `public`\n**Arguments:** `String name`\n\n"));
    assert!(markdown.contains("##### `ConfiguredDto`\n\n**Annotations:** `@Inject`"));
}

#[test]
fn markdown_folds_standard_accessors_into_fields() {
    let source = r#"
            package com.example;

            public class UserSendCodeRequest {
                private String to;
                private String channel;
                private boolean active;

                public String getTo() { return to; }
                public UserSendCodeRequest setTo(String to) { this.to = to; return this; }
                public String getChannel() { return channel; }
                public void setChannel(String channel) { this.channel = channel; }
                public boolean isActive() { return active; }
            }
        "#;
    let ast = parse_java_file(source).expect("parse");
    let files = vec![FileOutput { path: "src/U.java", ast: &ast }];
    let markdown = render(&files, Format::Markdown, &Vec::new()).expect("render");
    assert!(markdown.contains("| Annotations | Modifiers | Type | Name |\n| --- | --- | --- | --- |\n"));
    assert!(markdown.contains("| `` | `private` | `String` | `to` [getter] [setter] |\n"));
    assert!(markdown.contains("| `` | `private` | `String` | `channel` [getter] [setter] |\n"));
    assert!(markdown.contains("| `` | `private` | `boolean` | `active` [getter] |\n"));
    assert!(!markdown.contains("`getTo`"));
    assert!(!markdown.contains("`isActive`"));
    assert!(!markdown.contains("#### Methods"));
}

#[test]
fn markdown_keeps_methods_that_are_not_standard_accessors() {
    let source = r#"
            package com.example;

            public class UserService {
                private String name;
                private List<String> items;

                /** Name docs. */
                public String getName() { return name; }
                @Deprecated
                public void setName(String name) { this.name = name; }
                public String getOther() { return "other"; }
                public UserService addItems(List<String> items) { this.items = items; return this; }
            }
        "#;
    let ast = parse_java_file(source).expect("parse");
    let files = vec![FileOutput { path: "src/UserService.java", ast: &ast }];
    let markdown = render(&files, Format::Markdown, &Vec::new()).expect("render");
    assert!(markdown.contains("| `` | `private` | `String` | `name` |\n"));
    assert!(markdown.contains("`items` [add] |"));
    assert!(markdown.contains("##### `getName`\n\nName docs.\n\n"));
    assert!(markdown.contains("##### `setName`"));
    assert!(markdown.contains("##### `getOther`"));
    assert!(!markdown.contains("`addItems`"));
}

#[test]
fn markdown_renders_javadoc_descriptions_inline() {
    let source = r#"
            /**
             * User service.
             * @since 1.0
             */
            public class UserService {
                /** The id. */
                private long id;
            }
        "#;
    let ast = parse_java_file(source).expect("parse");
    let files = vec![FileOutput { path: "UserService.java", ast: &ast }];
    let markdown = render(&files, Format::Markdown, &Vec::new()).expect("render");
    assert!(markdown.contains("### Class `UserService`\n\nUser service.\n\n**Modifiers:** `public`"));
    assert!(markdown.contains("| `` | `private` | `long` | `id`: The id. |\n"));
    assert!(!markdown.contains("@since"));
}

#[test]
fn undocumented_fields_keep_the_four_column_table() {
    let ast = parse_java_file("class Outer { int v; class Inner {} }").expect("parse");
    let md = java_atlas::java_ast::render_markdown(&ast).expect("render");
    assert_eq!(
        md,
        "# Java Atlas\n\n**Package:** `_default_`\n\n## Class `Outer`\n\n### Fields\n\n\
         | Annotations | Modifiers | Type | Name |\n| --- | --- | --- | --- |\n| `` | `` | `int` | `v` |\n\n\
         ### Class `Inner`\n\n"
    );
}
