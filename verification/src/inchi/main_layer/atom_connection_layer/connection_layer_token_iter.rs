//! Connection layer tokens: atoms and branches.
//!
//! The sub-token stream is folded into a tree.  An `Index` becomes an
//! `Atom`; a `Dash` is discarded (pure chain-continuation punctuation); an
//! `OpenParenthesis` begins a `Branch`, whose arms are the alternative
//! continuations off one shared base atom.  A dangling `CloseParenthesis`
//! is an error at its own level and is reinterpreted by the enclosing
//! branch as "my branch is closed"; a `Comma` with a non-empty current arm
//! starts the next arm, and with an empty one is an error.

pub mod sub_tokens;

use vstd::prelude::*;

use crate::errors::AtomConnectionTokenError;
use sub_tokens::{
    lemma_conn_sub_token_advances, lemma_conn_sub_token_errors, spec_conn_sub_token,
    ConnectionLayerSubToken, ConnectionLayerSubTokenIter,
};

verus! {

/// A token of the connection layer grammar: a single atom, or a branch
/// holding its arms (each arm an ordered list of tokens).
#[derive(Debug, PartialEq, Eq)]
pub enum ConnectionLayerToken {
    /// A branch: alternative continuations off one shared base atom.
    Branch(Vec<Vec<ConnectionLayerToken>>),
    /// A single 1-based atom index.
    Atom(u16),
}

/// The mathematical shape of a connection layer token.
pub enum SpecConnToken {
    /// A branch and its arms.
    Branch(Seq<Seq<SpecConnToken>>),
    /// A single 1-based atom index.
    Atom(u16),
}

/// The mathematical shape of a token: atoms unchanged, branch arms as
/// nested sequences.
pub open spec fn spec_view_token(t: ConnectionLayerToken) -> SpecConnToken
    decreases t, 0int, 0int,
    via spec_view_token_dec
{
    match t {
        ConnectionLayerToken::Atom(v) => SpecConnToken::Atom(v),
        ConnectionLayerToken::Branch(arms) => SpecConnToken::Branch(spec_view_arms_from(arms@, 0)),
    }
}

#[via_fn]
proof fn spec_view_token_dec(t: ConnectionLayerToken) {
    broadcast use vstd::std_specs::vec::group_vec_axioms;

    match t {
        ConnectionLayerToken::Branch(arms) => {
            assert(decreases_to!(t => arms));
            assert(decreases_to!(arms => arms@));
        },
        _ => {},
    }
}

/// The shapes of the arms `arms[a ..]` of a branch.
pub open spec fn spec_view_arms_from(
    arms: Seq<Vec<ConnectionLayerToken>>,
    a: int,
) -> Seq<Seq<SpecConnToken>>
    decreases arms, 2int, arms.len() - a,
    via spec_view_arms_from_dec
{
    if a < 0 || a >= arms.len() {
        Seq::empty()
    } else {
        seq![spec_view_tokens_from(arms[a]@, 0)] + spec_view_arms_from(arms, a + 1)
    }
}

#[via_fn]
proof fn spec_view_arms_from_dec(arms: Seq<Vec<ConnectionLayerToken>>, a: int) {
    broadcast use vstd::std_specs::vec::group_vec_axioms;

    if 0 <= a < arms.len() {
        assert(decreases_to!(arms => arms[a]));
        assert(decreases_to!(arms[a] => arms[a]@));
    }
}

/// The shapes of the tokens `ts[k ..]` of one arm.
pub open spec fn spec_view_tokens_from(ts: Seq<ConnectionLayerToken>, k: int) -> Seq<SpecConnToken>
    decreases ts, 1int, ts.len() - k,
    via spec_view_tokens_from_dec
{
    if k < 0 || k >= ts.len() {
        Seq::empty()
    } else {
        seq![spec_view_token(ts[k])] + spec_view_tokens_from(ts, k + 1)
    }
}

#[via_fn]
proof fn spec_view_tokens_from_dec(ts: Seq<ConnectionLayerToken>, k: int) {
    if 0 <= k < ts.len() {
        assert(decreases_to!(ts => ts[k]));
    }
}

/// The mathematical shapes of a list of tokens.
pub open spec fn spec_view_tokens(ts: Seq<ConnectionLayerToken>) -> Seq<SpecConnToken> {
    spec_view_tokens_from(ts, 0)
}

/// The mathematical shapes of a list of branch arms.
pub open spec fn spec_view_arms(arms: Seq<Vec<ConnectionLayerToken>>) -> Seq<Seq<SpecConnToken>> {
    spec_view_arms_from(arms, 0)
}

/// One shape per token, in order.
pub proof fn lemma_view_tokens_from(ts: Seq<ConnectionLayerToken>, k: int)
    requires
        0 <= k <= ts.len(),
    ensures
        spec_view_tokens_from(ts, k).len() == ts.len() - k,
        forall|i: int|
            0 <= i < ts.len() - k ==> spec_view_tokens_from(ts, k)[i] == spec_view_token(
                ts[k + i],
            ),
    decreases ts.len() - k,
{
    if k < ts.len() {
        lemma_view_tokens_from(ts, k + 1);
    }
}

/// One shape per arm, in order.
pub proof fn lemma_view_arms_from(arms: Seq<Vec<ConnectionLayerToken>>, a: int)
    requires
        0 <= a <= arms.len(),
    ensures
        spec_view_arms_from(arms, a).len() == arms.len() - a,
        forall|i: int|
            0 <= i < arms.len() - a ==> spec_view_arms_from(arms, a)[i] == spec_view_tokens(
                arms[a + i]@,
            ),
    decreases arms.len() - a,
{
    if a < arms.len() {
        lemma_view_arms_from(arms, a + 1);
    }
}

/// The errors that an enclosing branch reinterprets as arm control rather
/// than propagating: a dangling close bracket ends the branch, and a comma
/// (after a non-empty arm) starts the next arm.
pub open spec fn is_branch_control(e: AtomConnectionTokenError) -> bool {
    ||| e == AtomConnectionTokenError::ClosingBracketBeforeOpeningBracket
    ||| e == AtomConnectionTokenError::CommaBeforeAnyEdge
}

/// What the token builder yields at position `i`: `None` at end of input,
/// else the token or the error, together with the position after it.  The
/// position is meaningful for a token and for the two branch-control
/// errors; a fatal error aborts the whole layer, so its position is the
/// one where it was found.
pub open spec fn spec_conn_token(s: Seq<char>, i: int) -> Option<
    (Result<SpecConnToken, AtomConnectionTokenError>, int),
>
    decreases s.len() - i, 0int,
{
    match spec_conn_sub_token(s, i) {
        None => None,
        Some(Err(e)) => Some((Err(e), i)),
        Some(Ok((t, j))) => if !(i < j <= s.len()) {
            // Cannot happen: a sub-token consumes at least one character.
            None
        } else {
            match t {
                ConnectionLayerSubToken::Index(v) => Some((Ok(SpecConnToken::Atom(v)), j)),
                ConnectionLayerSubToken::Dash => spec_conn_token(s, j),
                ConnectionLayerSubToken::OpenParenthesis => spec_branch_arms(
                    s,
                    j,
                    Seq::empty(),
                    Seq::empty(),
                ),
                ConnectionLayerSubToken::CloseParenthesis => Some(
                    (Err(AtomConnectionTokenError::ClosingBracketBeforeOpeningBracket), j),
                ),
                ConnectionLayerSubToken::Comma => Some(
                    (Err(AtomConnectionTokenError::CommaBeforeAnyEdge), j),
                ),
            }
        },
    }
}

/// Folds tokens into the arms of a branch that began before position `i`:
/// `cur` is the arm being accumulated and `arms` the completed arms.  A
/// dangling close bracket completes the branch (the final arm joins it
/// unless empty); a comma completes the current arm, failing when the arm
/// is still empty; end of input ends the stream.
pub open spec fn spec_branch_arms(
    s: Seq<char>,
    i: int,
    cur: Seq<SpecConnToken>,
    arms: Seq<Seq<SpecConnToken>>,
) -> Option<(Result<SpecConnToken, AtomConnectionTokenError>, int)>
    decreases s.len() - i, 1int,
{
    match spec_conn_token(s, i) {
        None => None,
        Some((Ok(t), j)) => if i < j <= s.len() {
            spec_branch_arms(s, j, cur.push(t), arms)
        } else {
            None
        },
        Some((Err(e), j)) => if e
            == AtomConnectionTokenError::ClosingBracketBeforeOpeningBracket {
            Some(
                (
                    Ok(
                        SpecConnToken::Branch(
                            if cur.len() > 0 {
                                arms.push(cur)
                            } else {
                                arms
                            },
                        ),
                    ),
                    j,
                ),
            )
        } else if e == AtomConnectionTokenError::CommaBeforeAnyEdge {
            if cur.len() == 0 {
                Some((Err(AtomConnectionTokenError::CommaBeforeAnyEdge), j))
            } else if i < j <= s.len() {
                spec_branch_arms(s, j, Seq::empty(), arms.push(cur))
            } else {
                None
            }
        } else {
            Some((Err(e), j))
        },
    }
}

/// A token, and a branch-control error, consume at least one character.
pub proof fn lemma_conn_token_advances(s: Seq<char>, i: int)
    requires
        0 <= i <= s.len(),
    ensures
        match spec_conn_token(s, i) {
            Some((res, j)) => (res is Ok || (res matches Err(e) && is_branch_control(e))) ==> i
                < j <= s.len(),
            None => true,
        },
    decreases s.len() - i, 0int,
{
    lemma_conn_sub_token_advances(s, i);
    lemma_conn_sub_token_errors(s, i);
    match spec_conn_sub_token(s, i) {
        Some(Ok((t, j))) => {
            match t {
                ConnectionLayerSubToken::Dash => {
                    lemma_conn_token_advances(s, j);
                },
                ConnectionLayerSubToken::OpenParenthesis => {
                    lemma_branch_arms_advances(s, j, Seq::empty(), Seq::empty());
                },
                _ => {},
            }
        },
        _ => {},
    }
}

/// A completed branch, and a branch-control error, consume at least one
/// character.
pub proof fn lemma_branch_arms_advances(
    s: Seq<char>,
    i: int,
    cur: Seq<SpecConnToken>,
    arms: Seq<Seq<SpecConnToken>>,
)
    requires
        0 <= i <= s.len(),
    ensures
        match spec_branch_arms(s, i, cur, arms) {
            Some((res, j)) => (res is Ok || (res matches Err(e) && is_branch_control(e))) ==> i
                < j <= s.len(),
            None => true,
        },
    decreases s.len() - i, 1int,
{
    lemma_conn_token_advances(s, i);
    match spec_conn_token(s, i) {
        Some((Ok(t), j)) => {
            if i < j <= s.len() {
                lemma_branch_arms_advances(s, j, cur.push(t), arms);
            }
        },
        Some((Err(e), j)) => {
            if e == AtomConnectionTokenError::CommaBeforeAnyEdge && cur.len() > 0 && i < j
                <= s.len() {
                lemma_branch_arms_advances(s, j, Seq::empty(), arms.push(cur));
            }
        },
        None => {},
    }
}

/// Builder of the token tree over the sub-tokens found in a provided
/// connection layer string.
pub struct ConnectionLayerTokenIter {
    /// The sub-token lexer.
    pub tokens: ConnectionLayerSubTokenIter,
}

impl ConnectionLayerTokenIter {
    /// The builder is well formed when its lexer is.
    pub open spec fn wf(&self) -> bool {
        self.tokens.wf()
    }

    /// Builds a token builder over the given component text.
    pub fn new(chars: Vec<char>) -> (it: Self)
        ensures
            it.wf(),
            it.tokens.chars@ == chars@,
            it.tokens.pos == 0,
    {
        ConnectionLayerTokenIter { tokens: ConnectionLayerSubTokenIter::new(chars) }
    }

    /// Yields the next token of the tree: `None` at end of input, the
    /// token, or the error that ends the level (a fatal one aborts the
    /// whole layer; a branch-control one is reinterpreted by the caller).
    pub fn next(&mut self) -> (r: Option<Result<ConnectionLayerToken, AtomConnectionTokenError>>)
        requires
            old(self).wf(),
        ensures
            final(self).wf(),
            final(self).tokens.chars@ == old(self).tokens.chars@,
            match spec_conn_token(old(self).tokens.chars@, old(self).tokens.pos as int) {
                None => r is None,
                Some((Ok(t), j)) => r matches Some(Ok(tok)) && spec_view_token(tok) == t
                    && final(self).tokens.pos as int == j,
                Some((Err(e), j)) => r == Some(
                    Err::<ConnectionLayerToken, AtomConnectionTokenError>(e),
                ) && (is_branch_control(e) ==> final(self).tokens.pos as int == j),
            },
        decreases old(self).tokens.chars@.len() - old(self).tokens.pos,
    {
        let ghost s = self.tokens.chars@;
        let ghost i = self.tokens.pos as int;
        proof {
            lemma_conn_sub_token_advances(s, i);
            lemma_conn_sub_token_errors(s, i);
        }
        let token = match self.tokens.next() {
            None => {
                return None;
            },
            Some(Err(e)) => {
                return Some(Err(e));
            },
            Some(Ok(t)) => t,
        };
        match token {
            ConnectionLayerSubToken::Index(v) => Some(Ok(ConnectionLayerToken::Atom(v))),
            ConnectionLayerSubToken::Dash => self.next(),
            ConnectionLayerSubToken::CloseParenthesis => Some(
                Err(AtomConnectionTokenError::ClosingBracketBeforeOpeningBracket),
            ),
            ConnectionLayerSubToken::Comma => Some(
                Err(AtomConnectionTokenError::CommaBeforeAnyEdge),
            ),
            ConnectionLayerSubToken::OpenParenthesis => {
                let ghost j0 = self.tokens.pos as int;
                let mut branch_tokens: Vec<Vec<ConnectionLayerToken>> = Vec::new();
                let mut sub_tokens: Vec<ConnectionLayerToken> = Vec::new();
                loop
                    invariant
                        s == old(self).tokens.chars@,
                        i == old(self).tokens.pos as int,
                        spec_conn_sub_token(s, i) == Some(
                            Ok::<_, AtomConnectionTokenError>(
                                (ConnectionLayerSubToken::OpenParenthesis, j0),
                            ),
                        ),
                        self.wf(),
                        self.tokens.chars@ == s,
                        i < j0 <= self.tokens.pos as int,
                        self.tokens.pos as int <= s.len(),
                        spec_branch_arms(
                            s,
                            self.tokens.pos as int,
                            spec_view_tokens(sub_tokens@),
                            spec_view_arms(branch_tokens@),
                        ) == spec_branch_arms(s, j0, Seq::<SpecConnToken>::empty(), Seq::<
                            Seq<SpecConnToken>,
                        >::empty()),
                    decreases s.len() - self.tokens.pos,
                {
                    let ghost pos_before = self.tokens.pos as int;
                    let ghost cur_v = spec_view_tokens(sub_tokens@);
                    let ghost arms_v = spec_view_arms(branch_tokens@);
                    proof {
                        lemma_conn_token_advances(s, pos_before);
                    }
                    match self.next() {
                        None => {
                            return None;
                        },
                        Some(Err(e)) => {
                            if matches!(
                                e,
                                AtomConnectionTokenError::ClosingBracketBeforeOpeningBracket
                            ) {
                                let ghost arms_pre = branch_tokens@;
                                let ghost cur_pre = sub_tokens@;
                                if sub_tokens.len() > 0 {
                                    branch_tokens.push(sub_tokens);
                                }
                                proof {
                                    lemma_view_arms_from(arms_pre, 0);
                                    lemma_view_arms_from(branch_tokens@, 0);
                                    lemma_view_tokens_from(cur_pre, 0);
                                    assert(spec_view_arms(branch_tokens@) =~~= if cur_v.len() > 0 {
                                        arms_v.push(cur_v)
                                    } else {
                                        arms_v
                                    });
                                }
                                return Some(Ok(ConnectionLayerToken::Branch(branch_tokens)));
                            } else if matches!(e, AtomConnectionTokenError::CommaBeforeAnyEdge) {
                                if sub_tokens.len() == 0 {
                                    return Some(Err(e));
                                }
                                let ghost arms_pre = branch_tokens@;
                                let ghost cur_pre = sub_tokens@;
                                branch_tokens.push(sub_tokens);
                                sub_tokens = Vec::new();
                                proof {
                                    lemma_view_arms_from(arms_pre, 0);
                                    lemma_view_arms_from(branch_tokens@, 0);
                                    lemma_view_tokens_from(cur_pre, 0);
                                    assert(spec_view_arms(branch_tokens@) =~~= arms_v.push(cur_v));
                                    assert(spec_view_tokens(sub_tokens@)
                                        =~~= Seq::<SpecConnToken>::empty());
                                }
                            } else {
                                return Some(Err(e));
                            }
                        },
                        Some(Ok(t)) => {
                            let ghost tv = spec_view_token(t);
                            let ghost cur_pre = sub_tokens@;
                            sub_tokens.push(t);
                            proof {
                                lemma_view_tokens_from(cur_pre, 0);
                                lemma_view_tokens_from(sub_tokens@, 0);
                                assert(spec_view_tokens(sub_tokens@) =~~= cur_v.push(tv));
                            }
                        },
                    }
                }
            },
        }
    }
}

} // verus!
