//! The elemental sub-tokens that compose a connection layer token, and the
//! lexer that produces them.
//!
//! Every punctuation sub-token must be immediately followed by a digit (the
//! next atom index); a violation is reported as illegal consecutive tokens,
//! and punctuation at end of input as an unexpected end of input.  `Index`
//! sub-tokens carry no such restriction.

use vstd::prelude::*;

use crate::digits::{is_ascii_digit, is_digit, lex_number, spec_lex_number};
use crate::errors::AtomConnectionTokenError;

verus! {

/// The elemental tokens that compose a connection layer token.
#[derive(Debug, Clone, Copy, PartialEq, Eq)]
pub enum ConnectionLayerSubToken {
    /// Open parenthesis token: `(`.
    OpenParenthesis,
    /// Close parenthesis token: `)`.
    CloseParenthesis,
    /// Comma token: `,`.
    Comma,
    /// Dash token: `-`.
    Dash,
    /// Atom index token.
    Index(u16),
}

/// The sub-token that a single punctuation character maps to.
pub open spec fn spec_punctuation_token(c: char) -> ConnectionLayerSubToken {
    if c == '(' {
        ConnectionLayerSubToken::OpenParenthesis
    } else if c == ')' {
        ConnectionLayerSubToken::CloseParenthesis
    } else if c == ',' {
        ConnectionLayerSubToken::Comma
    } else {
        ConnectionLayerSubToken::Dash
    }
}

/// Whether `c` is one of the four punctuation characters of the layer.
pub open spec fn is_punctuation(c: char) -> bool {
    c == '(' || c == ')' || c == ',' || c == '-'
}

/// What the sub-token lexer yields at position `i`: `None` at end of input,
/// else the sub-token together with the position after it, or the error
/// that aborts the layer.
pub open spec fn spec_conn_sub_token(s: Seq<char>, i: int) -> Option<
    Result<(ConnectionLayerSubToken, int), AtomConnectionTokenError>,
>
    decreases s.len() - i,
{
    if i < 0 || i >= s.len() {
        None
    } else if is_digit(s[i]) {
        match spec_lex_number(s, i) {
            Ok((v, j)) => Some(Ok((ConnectionLayerSubToken::Index(v), j))),
            Err(e) => Some(Err(AtomConnectionTokenError::NumericError(e))),
        }
    } else if !is_punctuation(s[i]) {
        Some(Err(AtomConnectionTokenError::InvalidCharacter(s[i])))
    } else {
        let tok = spec_punctuation_token(s[i]);
        if i + 1 >= s.len() {
            Some(Err(AtomConnectionTokenError::UnexpectedEndOfInput(tok)))
        } else if is_digit(s[i + 1]) {
            Some(Ok((tok, i + 1)))
        } else {
            match spec_conn_sub_token(s, i + 1) {
                Some(Ok((t2, _))) => Some(
                    Err(
                        AtomConnectionTokenError::IllegalConsecutiveSubTokens {
                            previous: tok,
                            illegal: t2,
                        },
                    ),
                ),
                Some(Err(e2)) => Some(Err(e2)),
                None => None,
            }
        }
    }
}

/// A sub-token is yielded only strictly inside the text, and consumes at
/// least one character.
pub proof fn lemma_conn_sub_token_advances(s: Seq<char>, i: int)
    requires
        0 <= i <= s.len(),
    ensures
        spec_conn_sub_token(s, i) matches Some(Ok((t, j))) ==> i < j <= s.len(),
        spec_conn_sub_token(s, i) is Some ==> i < s.len(),
    decreases s.len() - i,
{
    if 0 <= i < s.len() {
        if is_digit(s[i]) {
            crate::digits::lemma_digits_end_bounds(s, i);
        } else if is_punctuation(s[i]) && i + 1 < s.len() && !is_digit(s[i + 1]) {
            lemma_conn_sub_token_advances(s, i + 1);
        }
    }
}

/// The sub-token lexer never reports the two branch-control errors (the
/// dangling close bracket and the bare comma); those arise only at the
/// token level.
pub proof fn lemma_conn_sub_token_errors(s: Seq<char>, i: int)
    requires
        0 <= i <= s.len(),
    ensures
        match spec_conn_sub_token(s, i) {
            Some(Err(e)) => e != AtomConnectionTokenError::ClosingBracketBeforeOpeningBracket
                && e != AtomConnectionTokenError::CommaBeforeAnyEdge,
            _ => true,
        },
    decreases s.len() - i,
{
    if 0 <= i < s.len() && !is_digit(s[i]) && is_punctuation(s[i]) && i + 1 < s.len() && !is_digit(
        s[i + 1],
    ) {
        lemma_conn_sub_token_errors(s, i + 1);
    }
}

/// Lexer over the sub-tokens found in a provided connection layer string.
pub struct ConnectionLayerSubTokenIter {
    /// The characters of the component text.
    pub chars: Vec<char>,
    /// The cursor position.
    pub pos: usize,
}

/// The recursive core of the sub-token lexer: the sub-token at `i`, and the
/// cursor position after it.  On a fatal error the cursor is meaningless,
/// as the error aborts the whole layer.
fn conn_sub_token_at(s: &Vec<char>, i: usize) -> (r: (
    Option<Result<ConnectionLayerSubToken, AtomConnectionTokenError>>,
    usize,
))
    requires
        i <= s@.len(),
    ensures
        r.1 <= s@.len(),
        match spec_conn_sub_token(s@, i as int) {
            None => r.0 is None && r.1 == i,
            Some(Ok((t, j))) => r.0 == Some(Ok::<_, AtomConnectionTokenError>(t)) && r.1 as int
                == j,
            Some(Err(e)) => r.0 == Some(Err::<ConnectionLayerSubToken, _>(e)),
        },
    decreases s@.len() - i,
{
    if i >= s.len() {
        return (None, i);
    }
    let c = s[i];
    if is_ascii_digit(c) {
        match lex_number(s, i) {
            Ok((v, j)) => {
                return (Some(Ok(ConnectionLayerSubToken::Index(v))), j);
            },
            Err(e) => {
                return (Some(Err(AtomConnectionTokenError::NumericError(e))), i);
            },
        }
    }
    let tok = if c == '(' {
        ConnectionLayerSubToken::OpenParenthesis
    } else if c == ')' {
        ConnectionLayerSubToken::CloseParenthesis
    } else if c == ',' {
        ConnectionLayerSubToken::Comma
    } else if c == '-' {
        ConnectionLayerSubToken::Dash
    } else {
        return (Some(Err(AtomConnectionTokenError::InvalidCharacter(c))), i);
    };
    if i + 1 >= s.len() {
        return (Some(Err(AtomConnectionTokenError::UnexpectedEndOfInput(tok))), i);
    }
    if is_ascii_digit(s[i + 1]) {
        return (Some(Ok(tok)), i + 1);
    }
    let (next, _) = conn_sub_token_at(s, i + 1);
    match next {
        Some(Ok(t2)) => (
            Some(
                Err(
                    AtomConnectionTokenError::IllegalConsecutiveSubTokens {
                        previous: tok,
                        illegal: t2,
                    },
                ),
            ),
            i,
        ),
        Some(Err(e2)) => (Some(Err(e2)), i),
        None => (None, i),
    }
}

impl ConnectionLayerSubTokenIter {
    /// The lexer is well formed when its cursor lies inside the text.
    pub open spec fn wf(&self) -> bool {
        self.pos <= self.chars@.len()
    }

    /// Builds a lexer over the given component text, with the cursor at the
    /// start.
    pub fn new(chars: Vec<char>) -> (it: Self)
        ensures
            it.wf(),
            it.chars@ == chars@,
            it.pos == 0,
    {
        ConnectionLayerSubTokenIter { chars, pos: 0 }
    }

    /// Returns whether the next character is a digit, or `None` at end of
    /// input.
    pub fn peek_is_digit(&self) -> (r: Option<bool>)
        requires
            self.wf(),
        ensures
            match r {
                None => self.pos == self.chars@.len(),
                Some(b) => self.pos < self.chars@.len() && b == is_digit(
                    self.chars@[self.pos as int],
                ),
            },
    {
        if self.pos < self.chars.len() {
            Some(is_ascii_digit(self.chars[self.pos]))
        } else {
            None
        }
    }

    /// Returns whether the lexer has no characters left.
    pub fn is_empty(&self) -> (r: bool)
        requires
            self.wf(),
        ensures
            r == (self.pos == self.chars@.len()),
    {
        self.pos >= self.chars.len()
    }

    /// Lexes the digit run at the cursor into an atom index, advancing past
    /// it on success.
    pub fn consume_digit(&mut self) -> (r: Result<u16, AtomConnectionTokenError>)
        requires
            old(self).wf(),
            old(self).pos < old(self).chars@.len(),
            is_digit(old(self).chars@[old(self).pos as int]),
        ensures
            final(self).wf(),
            final(self).chars@ == old(self).chars@,
            match spec_lex_number(old(self).chars@, old(self).pos as int) {
                Ok((v, j)) => r == Ok::<_, AtomConnectionTokenError>(v) && final(self).pos as int
                    == j,
                Err(e) => r == Err::<u16, _>(AtomConnectionTokenError::NumericError(e)),
            },
    {
        match lex_number(&self.chars, self.pos) {
            Ok((v, j)) => {
                self.pos = j;
                Ok(v)
            },
            Err(e) => Err(AtomConnectionTokenError::NumericError(e)),
        }
    }

    /// Yields the next sub-token: `None` at end of input, the sub-token, or
    /// the error that aborts the layer.
    pub fn next(&mut self) -> (r: Option<
        Result<ConnectionLayerSubToken, AtomConnectionTokenError>,
    >)
        requires
            old(self).wf(),
        ensures
            final(self).wf(),
            final(self).chars@ == old(self).chars@,
            match spec_conn_sub_token(old(self).chars@, old(self).pos as int) {
                None => r is None,
                Some(Ok((t, j))) => r == Some(Ok::<_, AtomConnectionTokenError>(t))
                    && final(self).pos as int == j,
                Some(Err(e)) => r == Some(Err::<ConnectionLayerSubToken, _>(e)),
            },
    {
        let (r, j) = conn_sub_token_at(&self.chars, self.pos);
        self.pos = j;
        r
    }
}

} // verus!
