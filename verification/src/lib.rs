//! Java source atlas: parsing, cross-file resolution and rendering.

pub mod java_ast;
pub mod text;
pub mod markdown;
pub mod output;
