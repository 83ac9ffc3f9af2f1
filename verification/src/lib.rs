//! Lexical-analysis front end for a small C-like language: a pull-based
//! scanner that classifies raw source text into a flat token stream.

mod classes;
mod lexer;
mod model;
mod token;

pub use classes::is_keyword;
pub use classes::is_symbol;
pub use lexer::Lexer;
pub use token::Token;
