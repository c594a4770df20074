//! Error types for Java parsing and rendering.

use vstd::prelude::*;

verus! {

/// Why Java source could not be turned into a model or into Markdown.
#[derive(Debug, PartialEq, Eq)]
pub enum JavaAstError {
    LanguageSetup(String),
    MarkdownInvalid(String),
    ParseFailed,
    QueryFailed(String),
}

/// How an error is reported in words.
pub open spec fn error_message(e: JavaAstError) -> Seq<char> {
    match e {
        JavaAstError::LanguageSetup(s) => "Language setup error: "@ + s@,
        JavaAstError::MarkdownInvalid(s) => "Markdown validation failed: "@ + s@,
        JavaAstError::ParseFailed => "Failed to parse Java source"@,
        JavaAstError::QueryFailed(s) => "Query failed: "@ + s@,
    }
}

impl JavaAstError {
    /// The error in words.
    pub fn message(&self) -> (m: String)
        ensures
            m@ == error_message(*self),
    {
        let mut m = String::new();
        match self {
            JavaAstError::LanguageSetup(s) => {
                m.append("Language setup error: ");
                m.append(s.as_str());
            },
            JavaAstError::MarkdownInvalid(s) => {
                m.append("Markdown validation failed: ");
                m.append(s.as_str());
            },
            JavaAstError::ParseFailed => m.append("Failed to parse Java source"),
            JavaAstError::QueryFailed(s) => {
                m.append("Query failed: ");
                m.append(s.as_str());
            },
        }
        m
    }
}

} // verus!
