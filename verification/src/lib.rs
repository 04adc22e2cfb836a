//! A parser for the Turtle RDF syntax, working on a stream of lexical tokens.
pub mod span;

pub use span::Span;
pub mod lexing;
pub mod ast;
pub mod grammar;
pub mod shape;
pub mod fit;
pub mod parsing;
pub mod laws;
pub mod shape_laws;
pub mod term_laws;
