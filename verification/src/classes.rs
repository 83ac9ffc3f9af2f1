//! Character classes and the fixed keyword and symbol sets.
//!
//! Each executable classifier returns exactly what its spec-level twin says,
//! so every contract elsewhere can be stated over the spec functions alone.

use vstd::prelude::*;
use vstd::string::StrSliceExecFns;

verus! {

/// A Unicode white-space character: the `White_Space` property, the set that
/// `char::is_whitespace` in std recognizes.
pub open spec fn is_whitespace_char(c: char) -> bool {
    let u = c as u32;
    ||| u == 0x09
    ||| u == 0x0A
    ||| u == 0x0B
    ||| u == 0x0C
    ||| u == 0x0D
    ||| u == 0x20
    ||| u == 0x85
    ||| u == 0xA0
    ||| u == 0x1680
    ||| (0x2000 <= u && u <= 0x200A)
    ||| u == 0x2028
    ||| u == 0x2029
    ||| u == 0x202F
    ||| u == 0x205F
    ||| u == 0x3000
}

/// An ASCII decimal digit, `0` through `9`.
pub open spec fn is_digit_char(c: char) -> bool {
    0x30 <= c as u32 && c as u32 <= 0x39
}

/// An ASCII letter.
pub open spec fn is_letter_char(c: char) -> bool {
    let u = c as u32;
    (0x41 <= u && u <= 0x5A) || (0x61 <= u && u <= 0x7A)
}

/// A character that may open an identifier: an ASCII letter or `_`.
pub open spec fn is_ident_start_char(c: char) -> bool {
    is_letter_char(c) || c == '_'
}

/// A character that may continue an identifier: an ASCII letter, an ASCII
/// digit, or `_`.
pub open spec fn is_ident_char(c: char) -> bool {
    is_letter_char(c) || is_digit_char(c) || c == '_'
}

/// Membership in the fixed single-character symbol set.
pub open spec fn is_symbol_char(c: char) -> bool {
    ||| c == '+'
    ||| c == '-'
    ||| c == '*'
    ||| c == '/'
    ||| c == '='
    ||| c == '<'
    ||| c == '>'
    ||| c == ';'
    ||| c == ','
    ||| c == '('
    ||| c == ')'
    ||| c == '{'
    ||| c == '}'
}

/// Membership in the fixed reserved-word set (exact, case-sensitive).
pub open spec fn is_keyword_text(s: Seq<char>) -> bool {
    ||| s == "if"@
    ||| s == "else"@
    ||| s == "for"@
    ||| s == "while"@
    ||| s == "int"@
    ||| s == "return"@
    ||| s == "void"@
}

pub(crate) fn whitespace_char(c: char) -> (r: bool)
    ensures
        r == is_whitespace_char(c),
{
    let u = c as u32;
    u == 0x09 || u == 0x0A || u == 0x0B || u == 0x0C || u == 0x0D || u == 0x20 || u == 0x85
        || u == 0xA0 || u == 0x1680 || (0x2000 <= u && u <= 0x200A) || u == 0x2028 || u == 0x2029
        || u == 0x202F || u == 0x205F || u == 0x3000
}

pub(crate) fn digit_char(c: char) -> (r: bool)
    ensures
        r == is_digit_char(c),
{
    let u = c as u32;
    0x30 <= u && u <= 0x39
}

pub(crate) fn ident_start_char(c: char) -> (r: bool)
    ensures
        r == is_ident_start_char(c),
{
    let u = c as u32;
    (0x41 <= u && u <= 0x5A) || (0x61 <= u && u <= 0x7A) || u == 0x5F
}

pub(crate) fn ident_char(c: char) -> (r: bool)
    ensures
        r == is_ident_char(c),
{
    let u = c as u32;
    (0x41 <= u && u <= 0x5A) || (0x61 <= u && u <= 0x7A) || (0x30 <= u && u <= 0x39) || u == 0x5F
}

/// Character-by-character string equality, so that the keyword test below can
/// be proved against the literal reserved words.
fn str_eq(a: &str, b: &str) -> (r: bool)
    ensures
        r == (a@ == b@),
{
    let na = a.unicode_len();
    let nb = b.unicode_len();
    if na != nb {
        return false;
    }
    let mut i: usize = 0;
    while i < na
        invariant
            na == a@.len(),
            na == b@.len(),
            0 <= i <= na,
            forall|j: int| 0 <= j < i ==> a@[j] == b@[j],
        decreases na - i,
    {
        if a.get_char(i) != b.get_char(i) {
            return false;
        }
        i = i + 1;
    }
    proof {
        assert(a@ =~= b@);
    }
    true
}

/// Whether `word` is one of the fixed reserved words:
/// `if`, `else`, `for`, `while`, `int`, `return`, `void`.
pub fn is_keyword(word: &str) -> (r: bool)
    ensures
        r == is_keyword_text(word@),
{
    str_eq(word, "if") || str_eq(word, "else") || str_eq(word, "for") || str_eq(word, "while")
        || str_eq(word, "int") || str_eq(word, "return") || str_eq(word, "void")
}

/// Whether `c` is one of the fixed single-character symbols:
/// `+ - * / = < > ; , ( ) { }`.
pub fn is_symbol(c: char) -> (r: bool)
    ensures
        r == is_symbol_char(c),
{
    match c {
        '+' | '-' | '*' | '/' | '=' | '<' | '>' | ';' | ',' | '(' | ')' | '{' | '}' => true,
        _ => false,
    }
}

} // verus!
