//! Lexical front end of the Styx compiler.
//!
//! [`lexer`] turns source text into tokens by longest match over a fixed,
//! priority-ordered rule table; [`ast`] holds the tree nodes that a parser
//! builds from those tokens.

pub mod ast;
pub mod lexer;
