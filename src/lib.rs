//! Scanner and recursive-descent expression parser for a small scripting
//! language: source text becomes a token sequence, which becomes one
//! expression tree, or a diagnostic that carries a source line.

pub mod error;
pub mod expr;
pub mod object;
pub mod parser;
pub mod scanner;
pub mod text;
pub mod token;
