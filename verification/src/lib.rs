//! Syntax-level analysis of Go source for an editor: the variable under
//! the cursor with its declaration and uses, the concurrency context and
//! race severity of each access, detectors for struct fields, entity
//! counts and the entity graph of a file.
//!
//! Everything reads a [`syntax::SyntaxTree`], a copy of the parser's tree
//! as plain values in document order, together with the source text it
//! was parsed from. [`parse::parse_go`] makes one from Go source.

pub mod cache;
pub mod concurrency;
pub mod cursor;
pub mod decorate;
pub mod entities;
pub mod graph;
pub mod graph_laws;
pub mod heuristics;
pub mod parse;
pub mod resolve;
pub mod scope;
pub mod semantic;
pub mod sync;
pub mod syntax;
pub mod text;
pub mod types;
pub mod usage;
