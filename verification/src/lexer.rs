//! The scanner: a cursor over one input buffer that classifies and consumes
//! one token per call.

use crate::classes::digit_char;
use crate::classes::ident_char;
use crate::classes::ident_start_char;
use crate::classes::is_digit_char;
use crate::classes::is_ident_char;
use crate::classes::is_ident_start_char;
use crate::classes::is_keyword;
use crate::classes::is_symbol;
use crate::classes::whitespace_char;
use crate::model::digit_run;
use crate::model::ident_run;
use crate::model::is_step_token;
use crate::model::lemma_run_len_is;
use crate::model::lemma_white_run_bound;
use crate::model::lemma_white_run_step;
use crate::model::step_len;
use crate::model::white_run;
use crate::token::Token;
use vstd::prelude::*;
use vstd::string::StrSliceExecFns;

verus! {

/// A pull-based scanner over one immutable input buffer.
///
/// Its view is the remaining unconsumed input as a character sequence; each
/// `next_token` call consumes a prefix of it and classifies that prefix.
pub struct Lexer {
    input: String,
    pos: usize,
}

impl View for Lexer {
    type V = Seq<char>;

    closed spec fn view(&self) -> Seq<char> {
        self.input@.skip(self.pos as int)
    }
}

impl Lexer {
    /// The cursor never runs past the end of the buffer.
    pub closed spec fn wf(&self) -> bool {
        self.pos <= self.input@.len()
    }

    /// Create a scanner whose remaining input is the whole of `input`.
    pub fn new(input: &str) -> (lex: Lexer)
        ensures
            lex.wf(),
            lex@ == input@,
    {
        let lex = Lexer { input: input.to_owned(), pos: 0 };
        proof {
            assert(lex@ =~= input@);
        }
        lex
    }

    /// The lookahead: the next unconsumed character, if any.
    fn peek(&self) -> (r: Option<char>)
        requires
            self.wf(),
        ensures
            r == (if self@.len() > 0 {
                Some(self@[0])
            } else {
                None::<char>
            }),
    {
        let n = self.input.as_str().unicode_len();
        if self.pos < n {
            Some(self.input.as_str().get_char(self.pos))
        } else {
            None
        }
    }

    /// Consume one character; at the end of the input, do nothing.
    fn advance(&mut self)
        requires
            old(self).wf(),
        ensures
            final(self).wf(),
            old(self)@.len() > 0 ==> final(self)@ == old(self)@.skip(1),
            old(self)@.len() == 0 ==> final(self)@ == old(self)@,
    {
        let n = self.input.as_str().unicode_len();
        if self.pos < n {
            self.pos = self.pos + 1;
            proof {
                assert(self@ =~= old(self)@.skip(1));
            }
        }
    }

    /// Consume the maximal run of white-space characters at the front.
    #[allow(dead_code)]
    fn skip_whitespace(&mut self)
        requires
            old(self).wf(),
        ensures
            final(self).wf(),
            final(self)@ == old(self)@.skip(white_run(old(self)@) as int),
        decreases old(self)@.len(),
    {
        let ghost s0 = self@;
        let next = self.peek();
        match next {
            Some(c) => {
                if whitespace_char(c) {
                    self.advance();
                    self.skip_whitespace();
                    proof {
                        lemma_white_run_step(s0);
                        lemma_white_run_bound(s0.skip(1));
                        assert(s0.skip(1).skip(white_run(s0.skip(1)) as int) =~= s0.skip(
                            white_run(s0) as int,
                        ));
                    }
                } else {
                    proof {
                        lemma_white_run_step(s0);
                        assert(s0.skip(0) =~= s0);
                    }
                }
            },
            None => {
                proof {
                    assert(s0.skip(0) =~= s0);
                }
            },
        }
    }

    /// Produce the next token, or `None` once the input is exhausted.
    ///
    /// Classification is total and never fails: the token is exactly the one
    /// the scan-step model prescribes for the remaining input, and the
    /// cursor advances past exactly the characters that token stands for.
    pub fn next_token(&mut self) -> (r: Option<Token>)
        requires
            old(self).wf(),
        ensures
            final(self).wf(),
            old(self)@.len() == 0 ==> r is None && final(self)@ == old(self)@,
            old(self)@.len() > 0 ==> ({
                &&& r matches Some(t)
                &&& is_step_token(old(self)@, t)
                &&& final(self)@ == old(self)@.skip(step_len(old(self)@) as int)
            }),
    {
        let next = self.peek();
        match next {
            Some(c) => {
                if whitespace_char(c) {
                    self.advance();
                    Some(Token::Whitespace)
                } else if digit_char(c) {
                    Some(self.lex_number())
                } else if ident_start_char(c) {
                    Some(self.lex_identifier_or_keyword())
                } else if is_symbol(c) {
                    self.advance();
                    Some(Token::Symbol(c))
                } else {
                    self.advance();
                    Some(Token::Unknown(c))
                }
            },
            None => None,
        }
    }

    /// Read the maximal run of ASCII digits at the front as one `Number`.
    fn lex_number(&mut self) -> (t: Token)
        requires
            old(self).wf(),
            old(self)@.len() > 0,
            is_digit_char(old(self)@[0]),
        ensures
            final(self).wf(),
            is_step_token(old(self)@, t),
            final(self)@ == old(self)@.skip(step_len(old(self)@) as int),
    {
        let ghost s0 = self@;
        let n = self.input.as_str().unicode_len();
        let start = self.pos;
        let mut end = self.pos;
        while end < n && digit_char(self.input.as_str().get_char(end))
            invariant
                self.wf(),
                n == self.input@.len(),
                start == self.pos,
                start <= end <= n,
                forall|j: int| start <= j < end ==> is_digit_char(self.input@[j]),
            decreases n - end,
        {
            end = end + 1;
        }
        proof {
            assert forall|i: int| 0 <= i < end - start implies is_digit_char(s0[i]) by {
                assert(is_digit_char(self.input@[start + i]));
            }
            lemma_run_len_is(s0, |c: char| is_digit_char(c), end - start);
        }
        let word = self.input.as_str().substring_char(start, end);
        let text = word.to_owned();
        self.pos = end;
        proof {
            assert(text@ =~= s0.take(digit_run(s0) as int));
            assert(self@ =~= s0.skip(step_len(s0) as int));
        }
        Token::Number(text)
    }

    /// Read the maximal run of identifier characters at the front as one
    /// word: a `Keyword` when it matches a reserved word, an `Identifier`
    /// otherwise.
    fn lex_identifier_or_keyword(&mut self) -> (t: Token)
        requires
            old(self).wf(),
            old(self)@.len() > 0,
            is_ident_start_char(old(self)@[0]),
        ensures
            final(self).wf(),
            is_step_token(old(self)@, t),
            final(self)@ == old(self)@.skip(step_len(old(self)@) as int),
    {
        let ghost s0 = self@;
        let n = self.input.as_str().unicode_len();
        let start = self.pos;
        let mut end = self.pos;
        while end < n && ident_char(self.input.as_str().get_char(end))
            invariant
                self.wf(),
                n == self.input@.len(),
                start == self.pos,
                start <= end <= n,
                forall|j: int| start <= j < end ==> is_ident_char(self.input@[j]),
            decreases n - end,
        {
            end = end + 1;
        }
        proof {
            assert forall|i: int| 0 <= i < end - start implies is_ident_char(s0[i]) by {
                assert(is_ident_char(self.input@[start + i]));
            }
            lemma_run_len_is(s0, |c: char| is_ident_char(c), end - start);
        }
        let word = self.input.as_str().substring_char(start, end);
        let text = word.to_owned();
        self.pos = end;
        proof {
            assert(text@ =~= s0.take(ident_run(s0) as int));
            assert(self@ =~= s0.skip(step_len(s0) as int));
        }
        if is_keyword(word) {
            Token::Keyword(text)
        } else {
            Token::Identifier(text)
        }
    }
}

} // verus!
