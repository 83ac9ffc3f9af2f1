//! The mathematical model of one scan step, and the laws of the scanner:
//! reconstruction, totality, and maximal munch.

use crate::classes::is_digit_char;
use crate::classes::is_ident_char;
use crate::classes::is_ident_start_char;
use crate::classes::is_keyword_text;
use crate::classes::is_symbol_char;
use crate::classes::is_whitespace_char;
use crate::token::token_covers;
use crate::token::Token;
use vstd::prelude::*;

verus! {

/// Length of the longest prefix of `s` whose characters all satisfy `p`.
pub open spec fn run_len(s: Seq<char>, p: spec_fn(char) -> bool) -> nat
    decreases s.len(),
{
    if s.len() > 0 && p(s[0]) {
        (1 + run_len(s.skip(1), p)) as nat
    } else {
        0
    }
}

/// The longest prefix of digits.
pub open spec fn digit_run(s: Seq<char>) -> nat {
    run_len(s, |c: char| is_digit_char(c))
}

/// The longest prefix of identifier characters.
pub open spec fn ident_run(s: Seq<char>) -> nat {
    run_len(s, |c: char| is_ident_char(c))
}

/// The longest prefix of white-space characters.
pub open spec fn white_run(s: Seq<char>) -> nat {
    run_len(s, |c: char| is_whitespace_char(c))
}

/// `run_len` is bounded by the length, every character before it satisfies
/// `p`, and the character at it (if any) does not.
pub proof fn lemma_run_len(s: Seq<char>, p: spec_fn(char) -> bool)
    ensures
        run_len(s, p) <= s.len(),
        forall|i: int| 0 <= i < run_len(s, p) ==> p(s[i]),
        run_len(s, p) < s.len() ==> !p(s[run_len(s, p) as int]),
    decreases s.len(),
{
    if s.len() > 0 && p(s[0]) {
        lemma_run_len(s.skip(1), p);
        assert forall|i: int| 0 <= i < run_len(s, p) implies p(s[i]) by {
            if i > 0 {
                assert(p(s.skip(1)[i - 1]));
            }
        }
        if run_len(s, p) < s.len() {
            assert(!p(s.skip(1)[run_len(s, p) - 1]));
        }
    }
}

/// `run_len` is the unique cut: if the first `n` characters satisfy `p` and
/// the next one (if any) does not, the run has length exactly `n`.
pub proof fn lemma_run_len_is(s: Seq<char>, p: spec_fn(char) -> bool, n: int)
    requires
        0 <= n <= s.len(),
        forall|i: int| 0 <= i < n ==> p(s[i]),
        n < s.len() ==> !p(s[n]),
    ensures
        run_len(s, p) == n,
    decreases s.len(),
{
    if n == 0 {
        assert(s.len() > 0 ==> !p(s[0]));
    } else {
        assert(p(s[0]));
        assert forall|i: int| 0 <= i < n - 1 implies p(s.skip(1)[i]) by {
            assert(p(s[i + 1]));
        }
        if n - 1 < s.skip(1).len() {
            assert(s.skip(1)[n - 1] == s[n]);
        }
        lemma_run_len_is(s.skip(1), p, n - 1);
    }
}

/// One unfolding of `white_run`: a white-space character at the front adds
/// one to the run over the rest; any other front character ends the run.
pub proof fn lemma_white_run_step(s: Seq<char>)
    requires
        s.len() > 0,
    ensures
        is_whitespace_char(s[0]) ==> white_run(s) == 1 + white_run(s.skip(1)),
        !is_whitespace_char(s[0]) ==> white_run(s) == 0,
{
}

/// A white-space run never runs past the end of the input.
pub proof fn lemma_white_run_bound(s: Seq<char>)
    ensures
        white_run(s) <= s.len(),
{
    lemma_run_len(s, |c: char| is_whitespace_char(c));
}

/// How many characters one scan step consumes from the remaining input `s`:
/// none when `s` is exhausted, a maximal digit run for a number, a maximal
/// identifier-character run for a word, and exactly one character otherwise.
pub open spec fn step_len(s: Seq<char>) -> nat {
    if s.len() == 0 {
        0
    } else if is_whitespace_char(s[0]) {
        1
    } else if is_digit_char(s[0]) {
        digit_run(s)
    } else if is_ident_start_char(s[0]) {
        ident_run(s)
    } else {
        1
    }
}

/// Totality: on a non-empty remainder every scan step consumes at least one
/// and at most all of the remaining characters, so repeated pulls reach the
/// end of the input in finitely many calls.
pub proof fn lemma_step_len_bounds(s: Seq<char>)
    requires
        s.len() > 0,
    ensures
        1 <= step_len(s) <= s.len(),
{
    if !is_whitespace_char(s[0]) && is_digit_char(s[0]) {
        lemma_run_len(s, |c: char| is_digit_char(c));
        assert(digit_run(s) > 0);
    } else if !is_whitespace_char(s[0]) && !is_digit_char(s[0]) && is_ident_start_char(s[0]) {
        lemma_run_len(s, |c: char| is_ident_char(c));
        assert(ident_run(s) > 0);
    }
}

/// The token that one scan step on the non-empty remainder `s` must produce:
/// its variant follows the class of the first character, and its carried text
/// is exactly the consumed prefix.
pub open spec fn is_step_token(s: Seq<char>, t: Token) -> bool {
    let c = s[0];
    if is_whitespace_char(c) {
        t == Token::Whitespace
    } else if is_digit_char(c) {
        t matches Token::Number(w) && w@ == s.take(digit_run(s) as int)
    } else if is_ident_start_char(c) {
        let text = s.take(ident_run(s) as int);
        if is_keyword_text(text) {
            t matches Token::Keyword(w) && w@ == text
        } else {
            t matches Token::Identifier(w) && w@ == text
        }
    } else if is_symbol_char(c) {
        t == Token::Symbol(c)
    } else {
        t == Token::Unknown(c)
    }
}

/// The consumed fragments of a full scan, in order: each step takes
/// `step_len` characters until the input is exhausted.
pub open spec fn scan_texts(s: Seq<char>) -> Seq<Seq<char>>
    decreases s.len(),
{
    if s.len() == 0 {
        Seq::<Seq<char>>::empty()
    } else {
        proof {
            lemma_step_len_bounds(s);
        }
        seq![s.take(step_len(s) as int)] + scan_texts(s.skip(step_len(s) as int))
    }
}

/// Concatenation of a sequence of fragments.
pub open spec fn concat_texts(ts: Seq<Seq<char>>) -> Seq<char>
    decreases ts.len(),
{
    if ts.len() == 0 {
        Seq::<char>::empty()
    } else {
        ts[0] + concat_texts(ts.skip(1))
    }
}

/// Reconstruction: the fragments consumed over a full scan concatenate to
/// the input, character for character — no character is dropped, duplicated
/// or reordered.
pub proof fn lemma_reconstruction(s: Seq<char>)
    ensures
        concat_texts(scan_texts(s)) == s,
    decreases s.len(),
{
    if s.len() == 0 {
        assert(concat_texts(scan_texts(s)) =~= s);
    } else {
        lemma_step_len_bounds(s);
        let n = step_len(s) as int;
        lemma_reconstruction(s.skip(n));
        assert((seq![s.take(n)] + scan_texts(s.skip(n))).skip(1) =~= scan_texts(s.skip(n)));
        assert(s.take(n) + s.skip(n) =~= s);
    }
}

/// A full scan produces at most one token per input character: together with
/// `lemma_step_len_bounds` this bounds the number of successful pulls.
pub proof fn lemma_scan_count(s: Seq<char>)
    ensures
        scan_texts(s).len() <= s.len(),
    decreases s.len(),
{
    if s.len() > 0 {
        lemma_step_len_bounds(s);
        lemma_scan_count(s.skip(step_len(s) as int));
    }
}

/// Every step's token stands for exactly the fragment the step consumed:
/// with `lemma_reconstruction`, concatenating the texts of the produced
/// tokens (each `Whitespace` marker standing for the one white-space
/// character it consumed) reproduces the input.
pub proof fn lemma_step_token_covers(s: Seq<char>, t: Token)
    requires
        s.len() > 0,
        is_step_token(s, t),
    ensures
        token_covers(t, s.take(step_len(s) as int)),
{
    lemma_step_len_bounds(s);
}

/// Maximal munch: a run of digits is never split over two adjacent `Number`
/// tokens, and a run of identifier characters is never split over two
/// adjacent `Identifier`/`Keyword` tokens — the character right after such a
/// token never continues the class the token was read from.
pub proof fn lemma_maximal_munch(s: Seq<char>, t: Token, t2: Token)
    requires
        s.len() > 0,
        is_step_token(s, t),
        s.skip(step_len(s) as int).len() > 0,
        is_step_token(s.skip(step_len(s) as int), t2),
    ensures
        (t matches Token::Number(_)) ==> !(t2 matches Token::Number(_)),
        ((t matches Token::Identifier(_)) || (t matches Token::Keyword(_))) ==> !(t2
            matches Token::Identifier(_)) && !(t2 matches Token::Keyword(_)),
{
    let n = step_len(s) as int;
    let rest = s.skip(n);
    lemma_step_len_bounds(s);
    if t matches Token::Number(_) {
        lemma_run_len(s, |c: char| is_digit_char(c));
        assert(!is_digit_char(rest[0]));
    }
    if t matches Token::Identifier(_) || t matches Token::Keyword(_) {
        lemma_run_len(s, |c: char| is_ident_char(c));
        assert(!is_ident_char(rest[0]));
    }
}

} // verus!
