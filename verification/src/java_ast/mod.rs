//! Java source extraction and Markdown rendering facade.

pub mod display;
pub mod error;
pub mod helpers;
pub mod javadoc;
pub mod model;
pub mod parse;
pub mod render;
pub mod resolve;
pub mod syntax;

use vstd::prelude::*;

pub use self::error::JavaAstError;
pub use self::model::{
    JavaAnnotationElement, JavaArgument, JavaConstructor, JavaField, JavaFile, JavaMethod, JavaType, TypeKind,
};
pub use self::parse::parse_java_file;
pub use self::render::render_markdown;
pub use self::resolve::resolve_files;

use self::parse::file_is;
use self::render::file_markdown;
use self::syntax::java_syntax;
use crate::markdown::{failure_message, heading_check, markdown_events, validate_markdown};

verus! {

/// The single-file Markdown of a Java source: the file is parsed, rendered
/// and the Markdown validated. For the parsed model `f`, the result is the
/// Markdown of `f` when it passes validation, and otherwise the
/// `MarkdownInvalid` error carrying the validator's message; it fails in no
/// other way.
pub fn extract_markdown(source: &str) -> (r: Result<String, JavaAstError>)
    ensures
        exists|f| #[trigger] file_is(java_syntax(source@), source@, f) && match r {
            Ok(md) => md@ == file_markdown(f) && heading_check(markdown_events(md@)) is Ok,
            Err(e) => e matches JavaAstError::MarkdownInvalid(msg)
                && (heading_check(markdown_events(file_markdown(f))) matches Err(failure)
                && msg@ == failure_message(failure)),
        },
{
    let file = match parse_java_file(source) {
        Ok(f) => f,
        Err(e) => return Err(e),
    };
    let markdown = match render_markdown(&file) {
        Ok(m) => m,
        Err(e) => return Err(e),
    };
    match validate_markdown(markdown.as_str()) {
        Ok(()) => Ok(markdown),
        Err(e) => Err(JavaAstError::MarkdownInvalid(e.message())),
    }
}

} // verus!
