//! Module dependency extraction for JavaScript and TypeScript sources.
//!
//! `deps` classifies a module's top-level items into dependency records,
//! `parser` names what the swc parser, dependency analysis and source map give
//! for a source text, `syntax` reads a parsed module and places its records at
//! lines and columns, and `batch` holds the decisions of the concurrent batch
//! driver.

pub mod deps;
pub mod parser;
pub mod syntax;
pub mod batch;

pub use deps::Dependency;
pub use syntax::analyze;
