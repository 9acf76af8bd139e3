//! Language adapters for structural search: node classification, node-type
//! tables, quirk tables and snippet resolution over tree-sitter grammars.

mod grammar;
pub mod language;
pub mod markdown_inline;
pub mod rust;
pub mod snippet;

pub use language::{Field, FieldId, FieldSchema, NodeKindSchema, SchemaError, SortId};
pub use markdown_inline::MarkdownInline;
pub use rust::Rust;
pub use snippet::{nodes_from_indices, Candidate, ParsedSnippet, SyntaxNode};
