//! The token taxonomy produced by the scanner.

use crate::classes::is_whitespace_char;
use vstd::prelude::*;

verus! {

/// A classified, indivisible unit of source text.
///
/// Classification is total: every character of the input contributes to
/// exactly one token, with `Unknown` absorbing anything outside the
/// recognized classes instead of raising an error.
#[derive(Debug, PartialEq)]
pub enum Token {
    /// An identifier-shaped word that matches one of the fixed reserved words.
    Keyword(String),
    /// An ASCII alphanumeric/underscore word, not starting with a digit and
    /// not a reserved word.
    Identifier(String),
    /// A maximal run of ASCII decimal digits.
    Number(String),
    /// Exactly one character from the fixed symbol set.
    Symbol(char),
    /// A marker for exactly one white-space character consumed.
    Whitespace,
    /// Exactly one character that matches no other class.
    Unknown(char),
}

/// Whether `text` is the input fragment that `t` stands for: the carried
/// word for `Keyword`, `Identifier` and `Number`, the single carried
/// character for `Symbol` and `Unknown`, and one white-space character for
/// the `Whitespace` marker.
pub open spec fn token_covers(t: Token, text: Seq<char>) -> bool {
    match t {
        Token::Keyword(w) => w@ == text,
        Token::Identifier(w) => w@ == text,
        Token::Number(w) => w@ == text,
        Token::Symbol(c) => text =~= seq![c],
        Token::Whitespace => text.len() == 1 && is_whitespace_char(text[0]),
        Token::Unknown(c) => text =~= seq![c],
    }
}

} // verus!
