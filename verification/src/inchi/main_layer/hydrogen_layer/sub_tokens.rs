//! The elemental sub-tokens that compose a hydrogen layer, and the
//! context-sensitive lexer that produces them.
//!
//! Outside a mobile group, a digit run lexes as an atom index, as the
//! start of a range when a dash and more digits follow, or as a repetition
//! marker when a `*` follows; a literal `H` with an optional count marks
//! fixed hydrogens; `(` must open a mobile group header `(H`, with an
//! optional count, an optional charge dash, and the mandatory comma.
//! Inside a group, digit runs are plain indices, `)` closes the group and
//! `,` separates.  Any other character is invalid.

use vstd::prelude::*;

use crate::digits::{is_ascii_digit, is_digit, lex_number, spec_lex_number};
use crate::errors::HydrogenLayerTokenError;
use crate::errors::NumericError;

verus! {

/// The elemental tokens that compose a hydrogen layer.
#[derive(Debug, Clone, Copy, PartialEq, Eq)]
pub enum HydogenLayerSubTokens {
    /// Atom index token.
    Index(u16),
    /// A range of atoms: two indices separated by a dash.
    Range((u16, u16)),
    /// Comma token: `,`.
    Comma,
    /// The letter `H` with an optional count (1 if omitted).
    H(u8),
    /// Mobile group opener: `(H`, with an optional count, an optional
    /// charge marker, and the mandatory `,` that follows.
    SharedHydrogens {
        /// Number of mobile hydrogens (1 if omitted).
        count: u8,
        /// `true` for a charged mobile hydrogen group `(H-,...)`.
        charged: bool,
    },
    /// Close parenthesis token: `)`.
    CloseParenthesis,
    /// Asterisk token: `*`, always preceded by a digit run.
    Asterisk(u8),
}

/// The lexer state after a token: a mobile group opener enters the group,
/// its close parenthesis leaves it, everything else keeps the state.
pub open spec fn spec_next_paren_state(t: HydogenLayerSubTokens, in_paren: bool) -> bool {
    match t {
        HydogenLayerSubTokens::SharedHydrogens { count, charged } => true,
        HydogenLayerSubTokens::CloseParenthesis => false,
        _ => in_paren,
    }
}

/// What the hydrogen sub-token lexer yields at position `i`, with the
/// given group state: `None` at end of input, else the sub-token together
/// with the position after it, or the error that aborts the layer.
pub open spec fn spec_h_sub_token(s: Seq<char>, i: int, in_paren: bool) -> Option<
    Result<(HydogenLayerSubTokens, int), HydrogenLayerTokenError>,
> {
    if i < 0 || i >= s.len() {
        None
    } else if is_digit(s[i]) {
        match spec_lex_number(s, i) {
            Err(e) => Some(Err(HydrogenLayerTokenError::NumericError(e))),
            Ok((n, j)) => if j < s.len() && s[j] == '-' {
                if j + 1 < s.len() && is_digit(s[j + 1]) {
                    match spec_lex_number(s, j + 1) {
                        Ok((m, j2)) => Some(Ok((HydogenLayerSubTokens::Range((n, m)), j2))),
                        Err(e) => Some(Err(HydrogenLayerTokenError::NumericError(e))),
                    }
                } else {
                    Some(Err(HydrogenLayerTokenError::InvalidCharacter('-')))
                }
            } else if j < s.len() && s[j] == '*' {
                if n <= 255 {
                    Some(Ok((HydogenLayerSubTokens::Asterisk(n as u8), j + 1)))
                } else {
                    Some(Err(HydrogenLayerTokenError::TryFromIntError))
                }
            } else {
                Some(Ok((HydogenLayerSubTokens::Index(n), j)))
            },
        }
    } else if s[i] == 'H' {
        if i + 1 < s.len() && is_digit(s[i + 1]) {
            match spec_lex_number(s, i + 1) {
                Ok((c, j)) => if c <= 255 {
                    Some(Ok((HydogenLayerSubTokens::H(c as u8), j)))
                } else {
                    Some(
                        Err(HydrogenLayerTokenError::NumericError(NumericError::PositiveOverflow)),
                    )
                },
                Err(e) => Some(Err(HydrogenLayerTokenError::NumericError(e))),
            }
        } else {
            Some(Ok((HydogenLayerSubTokens::H(1), i + 1)))
        }
    } else if s[i] == '(' {
        if i + 1 >= s.len() {
            Some(Err(HydrogenLayerTokenError::InvalidCharacter('(')))
        } else if s[i + 1] != 'H' {
            Some(Err(HydrogenLayerTokenError::InvalidCharacter(s[i + 1])))
        } else {
            let header = spec_mobile_header(s, i + 2);
            match header {
                Err(e) => Some(Err(e)),
                Ok((count, charged, j)) => Some(
                    Ok((HydogenLayerSubTokens::SharedHydrogens { count, charged }, j)),
                ),
            }
        }
    } else if s[i] == ')' {
        if in_paren {
            Some(Ok((HydogenLayerSubTokens::CloseParenthesis, i + 1)))
        } else {
            Some(Err(HydrogenLayerTokenError::InvalidCharacter(')')))
        }
    } else if s[i] == ',' {
        Some(Ok((HydogenLayerSubTokens::Comma, i + 1)))
    } else {
        Some(Err(HydrogenLayerTokenError::InvalidCharacter(s[i])))
    }
}

/// What reading a mobile group header after its `(H` yields: the count
/// (1 if omitted), the charge flag, and the position after the mandatory
/// comma.
pub open spec fn spec_mobile_header(s: Seq<char>, i: int) -> Result<
    (u8, bool, int),
    HydrogenLayerTokenError,
>
    recommends
        0 <= i,
{
    let counted = if i < s.len() && is_digit(s[i]) {
        match spec_lex_number(s, i) {
            Ok((c, j)) => if c <= 255 {
                Ok(((c as u8), j))
            } else {
                Err(HydrogenLayerTokenError::NumericError(NumericError::PositiveOverflow))
            },
            Err(e) => Err(HydrogenLayerTokenError::NumericError(e)),
        }
    } else {
        Ok((1u8, i))
    };
    match counted {
        Err(e) => Err(e),
        Ok((count, j)) => {
            let charged = j < s.len() && s[j] == '-';
            let j2 = if charged {
                j + 1
            } else {
                j
            };
            if j2 >= s.len() {
                Err(HydrogenLayerTokenError::InvalidCharacter('('))
            } else if s[j2] != ',' {
                Err(HydrogenLayerTokenError::InvalidCharacter(s[j2]))
            } else {
                Ok((count, charged, j2 + 1))
            }
        },
    }
}

/// A hydrogen sub-token is yielded only strictly inside the text, and
/// consumes at least one character.
pub proof fn lemma_h_sub_token_advances(s: Seq<char>, i: int, in_paren: bool)
    requires
        0 <= i <= s.len(),
    ensures
        spec_h_sub_token(s, i, in_paren) matches Some(Ok((t, j))) ==> i < j <= s.len(),
        spec_h_sub_token(s, i, in_paren) is Some ==> i < s.len(),
{
    if 0 <= i < s.len() {
        crate::digits::lemma_digits_end_bounds(s, i);
        if is_digit(s[i]) {
            let j = crate::digits::digits_end(s, i);
            if j + 1 <= s.len() {
                crate::digits::lemma_digits_end_bounds(s, j + 1);
            }
        } else if s[i] == 'H' {
            if i + 1 < s.len() {
                crate::digits::lemma_digits_end_bounds(s, i + 1);
            }
        } else if s[i] == '(' {
            if i + 2 <= s.len() {
                crate::digits::lemma_digits_end_bounds(s, i + 2);
            }
        }
    }
}

/// Lexer over the sub-tokens found in a provided hydrogen layer
/// component, tracking whether the cursor stands inside a mobile group.
pub struct HydrogenLayerSubTokenIter {
    /// The characters of the component text.
    pub chars: Vec<char>,
    /// The cursor position.
    pub pos: usize,
    /// Whether the cursor stands inside a mobile group.
    pub in_parenthesis: bool,
}

impl HydrogenLayerSubTokenIter {
    /// The lexer is well formed when its cursor lies inside the text.
    pub open spec fn wf(&self) -> bool {
        self.pos <= self.chars@.len()
    }

    /// Builds a lexer over the given component text, with the cursor at
    /// the start, outside any group.
    pub fn new(chars: Vec<char>) -> (it: Self)
        ensures
            it.wf(),
            it.chars@ == chars@,
            it.pos == 0,
            !it.in_parenthesis,
    {
        HydrogenLayerSubTokenIter { chars, pos: 0, in_parenthesis: false }
    }

    /// Returns whether the next character is a digit, or `None` at end of
    /// input.
    pub fn peek_is_digit(&self) -> (r: Option<bool>)
        requires
            self.wf(),
        ensures
            match r {
                None => self.pos == self.chars@.len(),
                Some(b) => self.pos < self.chars@.len() && b == is_digit(
                    self.chars@[self.pos as int],
                ),
            },
    {
        if self.pos < self.chars.len() {
            Some(is_ascii_digit(self.chars[self.pos]))
        } else {
            None
        }
    }

    /// Returns whether the next character is the letter `H`, or `None` at
    /// end of input.
    pub fn peek_is_hydrogen(&self) -> (r: Option<bool>)
        requires
            self.wf(),
        ensures
            match r {
                None => self.pos == self.chars@.len(),
                Some(b) => self.pos < self.chars@.len() && b == (self.chars@[self.pos as int]
                    == 'H'),
            },
    {
        if self.pos < self.chars.len() {
            Some(self.chars[self.pos] == 'H')
        } else {
            None
        }
    }

    /// Consumes a `-` at the cursor, reporting whether one was there.
    pub fn consume_dash(&mut self) -> (r: bool)
        requires
            old(self).wf(),
        ensures
            final(self).wf(),
            final(self).chars@ == old(self).chars@,
            final(self).in_parenthesis == old(self).in_parenthesis,
            r == (old(self).pos < old(self).chars@.len() && old(self).chars@[old(self).pos as int]
                == '-'),
            final(self).pos == if r {
                old(self).pos + 1
            } else {
                old(self).pos as int
            },
    {
        if self.pos < self.chars.len() && self.chars[self.pos] == '-' {
            self.pos = self.pos + 1;
            true
        } else {
            false
        }
    }

    /// Consumes a `*` at the cursor, reporting whether one was there.
    pub fn consume_asterisk(&mut self) -> (r: bool)
        requires
            old(self).wf(),
        ensures
            final(self).wf(),
            final(self).chars@ == old(self).chars@,
            final(self).in_parenthesis == old(self).in_parenthesis,
            r == (old(self).pos < old(self).chars@.len() && old(self).chars@[old(self).pos as int]
                == '*'),
            final(self).pos == if r {
                old(self).pos + 1
            } else {
                old(self).pos as int
            },
    {
        if self.pos < self.chars.len() && self.chars[self.pos] == '*' {
            self.pos = self.pos + 1;
            true
        } else {
            false
        }
    }

    /// Yields the next sub-token: `None` at end of input, the sub-token,
    /// or the error that aborts the layer.
    pub fn next(&mut self) -> (r: Option<Result<HydogenLayerSubTokens, HydrogenLayerTokenError>>)
        requires
            old(self).wf(),
        ensures
            final(self).wf(),
            final(self).chars@ == old(self).chars@,
            match spec_h_sub_token(
                old(self).chars@,
                old(self).pos as int,
                old(self).in_parenthesis,
            ) {
                None => r is None,
                Some(Ok((t, j))) => r == Some(Ok::<_, HydrogenLayerTokenError>(t))
                    && final(self).pos as int == j && final(self).in_parenthesis
                    == spec_next_paren_state(t, old(self).in_parenthesis),
                Some(Err(e)) => r == Some(Err::<HydogenLayerSubTokens, _>(e)),
            },
    {
        proof {
            lemma_h_sub_token_advances(self.chars@, self.pos as int, self.in_parenthesis);
        }
        if self.pos >= self.chars.len() {
            return None;
        }
        let c = self.chars[self.pos];
        if is_ascii_digit(c) {
            let (n, j) = match lex_number(&self.chars, self.pos) {
                Ok(p) => p,
                Err(e) => {
                    return Some(Err(HydrogenLayerTokenError::NumericError(e)));
                },
            };
            self.pos = j;
            if self.consume_dash() {
                if self.pos < self.chars.len() && is_ascii_digit(self.chars[self.pos]) {
                    match lex_number(&self.chars, self.pos) {
                        Ok((m, j2)) => {
                            self.pos = j2;
                            return Some(Ok(HydogenLayerSubTokens::Range((n, m))));
                        },
                        Err(e) => {
                            return Some(Err(HydrogenLayerTokenError::NumericError(e)));
                        },
                    }
                }
                return Some(Err(HydrogenLayerTokenError::InvalidCharacter('-')));
            }
            if self.consume_asterisk() {
                if n <= 255 {
                    return Some(Ok(HydogenLayerSubTokens::Asterisk(n as u8)));
                }
                return Some(Err(HydrogenLayerTokenError::TryFromIntError));
            }
            return Some(Ok(HydogenLayerSubTokens::Index(n)));
        }
        if c == 'H' {
            self.pos = self.pos + 1;
            if self.pos < self.chars.len() && is_ascii_digit(self.chars[self.pos]) {
                match lex_number(&self.chars, self.pos) {
                    Ok((cnt, j)) => {
                        if cnt <= 255 {
                            self.pos = j;
                            return Some(Ok(HydogenLayerSubTokens::H(cnt as u8)));
                        }
                        return Some(
                            Err(
                                HydrogenLayerTokenError::NumericError(
                                    NumericError::PositiveOverflow,
                                ),
                            ),
                        );
                    },
                    Err(e) => {
                        return Some(Err(HydrogenLayerTokenError::NumericError(e)));
                    },
                }
            }
            return Some(Ok(HydogenLayerSubTokens::H(1)));
        }
        if c == '(' {
            if self.pos + 1 >= self.chars.len() {
                return Some(Err(HydrogenLayerTokenError::InvalidCharacter('(')));
            }
            let c1 = self.chars[self.pos + 1];
            if c1 != 'H' {
                return Some(Err(HydrogenLayerTokenError::InvalidCharacter(c1)));
            }
            self.pos = self.pos + 2;
            let count: u8 = if self.pos < self.chars.len() && is_ascii_digit(
                self.chars[self.pos],
            ) {
                match lex_number(&self.chars, self.pos) {
                    Ok((cnt, j)) => {
                        if cnt <= 255 {
                            self.pos = j;
                            cnt as u8
                        } else {
                            return Some(
                                Err(
                                    HydrogenLayerTokenError::NumericError(
                                        NumericError::PositiveOverflow,
                                    ),
                                ),
                            );
                        }
                    },
                    Err(e) => {
                        return Some(Err(HydrogenLayerTokenError::NumericError(e)));
                    },
                }
            } else {
                1
            };
            let charged = self.consume_dash();
            if self.pos >= self.chars.len() {
                return Some(Err(HydrogenLayerTokenError::InvalidCharacter('(')));
            }
            let c2 = self.chars[self.pos];
            if c2 != ',' {
                return Some(Err(HydrogenLayerTokenError::InvalidCharacter(c2)));
            }
            self.pos = self.pos + 1;
            self.in_parenthesis = true;
            return Some(Ok(HydogenLayerSubTokens::SharedHydrogens { count, charged }));
        }
        if c == ')' {
            if !self.in_parenthesis {
                return Some(Err(HydrogenLayerTokenError::InvalidCharacter(')')));
            }
            self.pos = self.pos + 1;
            self.in_parenthesis = false;
            return Some(Ok(HydogenLayerSubTokens::CloseParenthesis));
        }
        if c == ',' {
            self.pos = self.pos + 1;
            return Some(Ok(HydogenLayerSubTokens::Comma));
        }
        Some(Err(HydrogenLayerTokenError::InvalidCharacter(c)))
    }
}

} // verus!
