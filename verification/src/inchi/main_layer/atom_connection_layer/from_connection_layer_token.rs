//! Extraction of undirected edges from a stream of connection layer
//! tokens.
//!
//! The walk holds a "current atom" (initially unset, established by the
//! first atom).  An atom seen while one is held emits an edge, after the
//! 1-based indices are converted to 0-based and the pair is canonicalized
//! as (min, max); equal endpoints fail as a self loop.  Each arm of a
//! branch is walked starting from the atom held before the branch, and
//! after all arms the current atom reverts to that same pre-branch atom.
//! Because arms are walked from the base atom, a self loop written through
//! a branch, such as an arm that starts with the base atom's own index, is
//! detected like one written with a dash.

use vstd::prelude::*;

use crate::errors::AtomConnectionTokenError;
use super::connection_layer_token_iter::sub_tokens::ConnectionLayerSubToken;
use super::connection_layer_token_iter::{
    lemma_conn_token_advances, lemma_view_arms_from, lemma_view_tokens_from, spec_conn_token,
    spec_view_arms_from, spec_view_token, spec_view_tokens_from, ConnectionLayerToken,
    ConnectionLayerTokenIter, SpecConnToken,
};

verus! {

/// The 0-based canonical (min, max) form of an edge between two distinct
/// 1-based endpoints.
pub open spec fn spec_canonical_edge(left: u16, right: u16) -> (u16, u16)
    recommends
        1 <= left,
        1 <= right,
        left != right,
{
    if left <= right {
        (((left - 1) as u16), ((right - 1) as u16))
    } else {
        (((right - 1) as u16), ((left - 1) as u16))
    }
}

/// What adding an edge between the 1-based endpoints `left` and `right`
/// yields: the edge list extended by the canonical pair, or the error.  A
/// zero index cannot reach this point from the lexer, but is rejected all
/// the same.
pub open spec fn spec_add_edge(left: u16, right: u16, edges: Seq<(u16, u16)>) -> Result<
    Seq<(u16, u16)>,
    AtomConnectionTokenError,
> {
    if left == 0 || right == 0 {
        Err(AtomConnectionTokenError::ZeroAtomIndex)
    } else if left == right {
        Err(AtomConnectionTokenError::SelfLoopDetected(left))
    } else {
        Ok(edges.push(spec_canonical_edge(left, right)))
    }
}

/// What walking one token yields: the new current atom and the extended
/// edge list, or the error.
pub open spec fn spec_edges_token(
    t: SpecConnToken,
    last: Option<u16>,
    edges: Seq<(u16, u16)>,
) -> Result<(u16, Seq<(u16, u16)>), AtomConnectionTokenError>
    decreases t, 0int, 0int,
    via spec_edges_token_dec
{
    match t {
        SpecConnToken::Atom(v) => match last {
            Some(l) => match spec_add_edge(l, v, edges) {
                Ok(es) => Ok((v, es)),
                Err(e) => Err(e),
            },
            None => Ok((v, edges)),
        },
        SpecConnToken::Branch(arms) => match last {
            None => Err(
                AtomConnectionTokenError::IllegalStartingToken(
                    ConnectionLayerSubToken::OpenParenthesis,
                ),
            ),
            Some(base) => match spec_edges_arms(arms, 0, base, edges) {
                Ok(es) => Ok((base, es)),
                Err(e) => Err(e),
            },
        },
    }
}

#[via_fn]
proof fn spec_edges_token_dec(t: SpecConnToken, last: Option<u16>, edges: Seq<(u16, u16)>) {
    match t {
        SpecConnToken::Branch(arms) => {
            assert(decreases_to!(t => arms));
        },
        _ => {},
    }
}

/// What walking the arms `arms[a ..]` yields, each arm starting from the
/// pre-branch atom `base`.
pub open spec fn spec_edges_arms(
    arms: Seq<Seq<SpecConnToken>>,
    a: int,
    base: u16,
    edges: Seq<(u16, u16)>,
) -> Result<Seq<(u16, u16)>, AtomConnectionTokenError>
    decreases arms, 2int, arms.len() - a,
    via spec_edges_arms_dec
{
    if a < 0 || a >= arms.len() {
        Ok(edges)
    } else {
        match spec_edges_arm(arms[a], 0, base, edges) {
            Ok(es) => spec_edges_arms(arms, a + 1, base, es),
            Err(e) => Err(e),
        }
    }
}

#[via_fn]
proof fn spec_edges_arms_dec(arms: Seq<Seq<SpecConnToken>>, a: int, base: u16, edges: Seq<(u16, u16)>) {
    if 0 <= a < arms.len() {
        assert(decreases_to!(arms => arms[a]));
    }
}

/// What walking the tokens `arm[k ..]` of one arm yields, continuing from
/// the current atom `last`.
pub open spec fn spec_edges_arm(
    arm: Seq<SpecConnToken>,
    k: int,
    last: u16,
    edges: Seq<(u16, u16)>,
) -> Result<Seq<(u16, u16)>, AtomConnectionTokenError>
    decreases arm, 1int, arm.len() - k,
    via spec_edges_arm_dec
{
    if k < 0 || k >= arm.len() {
        Ok(edges)
    } else {
        match spec_edges_token(arm[k], Some(last), edges) {
            Ok((l2, es)) => spec_edges_arm(arm, k + 1, l2, es),
            Err(e) => Err(e),
        }
    }
}

#[via_fn]
proof fn spec_edges_arm_dec(arm: Seq<SpecConnToken>, k: int, last: u16, edges: Seq<(u16, u16)>) {
    if 0 <= k < arm.len() {
        assert(decreases_to!(arm => arm[k]));
    }
}

/// What extracting edges from the token stream starting at position `i`
/// yields, continuing from the current atom `last` and the edges so far.
pub open spec fn spec_conn_edges_from(
    s: Seq<char>,
    i: int,
    last: Option<u16>,
    edges: Seq<(u16, u16)>,
) -> Result<Seq<(u16, u16)>, AtomConnectionTokenError>
    decreases s.len() - i,
{
    match spec_conn_token(s, i) {
        None => Ok(edges),
        Some((Err(e), _)) => Err(e),
        Some((Ok(t), j)) => if !(i < j <= s.len()) {
            // Cannot happen: a token consumes at least one character.
            Ok(edges)
        } else {
            match spec_edges_token(t, last, edges) {
                Ok((l2, es)) => spec_conn_edges_from(s, j, Some(l2), es),
                Err(e) => Err(e),
            }
        },
    }
}

/// What extracting edges from a whole component text yields: the edges in
/// emission order, or the first error.
pub open spec fn spec_conn_edges(s: Seq<char>) -> Result<
    Seq<(u16, u16)>,
    AtomConnectionTokenError,
> {
    spec_conn_edges_from(s, 0, None, Seq::empty())
}

/// An edge pair in canonical form: 0-based, strictly increasing, and with
/// room for the 1-based form of either endpoint.
pub open spec fn spec_edge_canonical(e: (u16, u16)) -> bool {
    e.0 < e.1 < 65535
}

/// Adds an edge between two 1-based atom indices to the edges vector,
/// canonicalized as (min, max) after 0-based conversion; equal endpoints
/// fail as a self loop.
pub fn add_edge(left_index: u16, right_index: u16, edges: &mut Vec<(u16, u16)>) -> (r: Result<
    (),
    AtomConnectionTokenError,
>)
    ensures
        match spec_add_edge(left_index, right_index, old(edges)@) {
            Ok(es) => r is Ok && final(edges)@ == es,
            Err(e) => r == Err::<(), _>(e) && final(edges)@ == old(edges)@,
        },
{
    if left_index == 0 || right_index == 0 {
        return Err(AtomConnectionTokenError::ZeroAtomIndex);
    }
    if left_index == right_index {
        return Err(AtomConnectionTokenError::SelfLoopDetected(left_index));
    }
    let left = left_index - 1;
    let right = right_index - 1;
    edges.push(
        if left <= right {
            (left, right)
        } else {
            (right, left)
        },
    );
    Ok(())
}

/// Walks one token, emitting its edges and returning the new current
/// atom: an atom links to the held atom and becomes current; each branch
/// arm is walked from the pre-branch atom, which stays current afterwards.
pub fn parse_token(
    last_atom: Option<u16>,
    token: &ConnectionLayerToken,
    edges: &mut Vec<(u16, u16)>,
) -> (r: Result<u16, AtomConnectionTokenError>)
    ensures
        match spec_edges_token(spec_view_token(*token), last_atom, old(edges)@) {
            Ok((l2, es)) => r == Ok::<_, AtomConnectionTokenError>(l2) && final(edges)@ == es,
            Err(e) => r == Err::<u16, _>(e),
        },
        (forall|k: int| 0 <= k < old(edges)@.len() ==> spec_edge_canonical(#[trigger] old(edges)@[k]))
            && r is Ok ==> forall|k: int|
            0 <= k < final(edges)@.len() ==> spec_edge_canonical(#[trigger] final(edges)@[k]),
    decreases *token,
{
    broadcast use vstd::std_specs::vec::group_vec_axioms;

    match token {
        ConnectionLayerToken::Atom(v) => {
            if let Some(last) = last_atom {
                match add_edge(last, *v, edges) {
                    Ok(_) => {},
                    Err(e) => {
                        return Err(e);
                    },
                }
            }
            Ok(*v)
        },
        ConnectionLayerToken::Branch(branch) => {
            let Some(base) = last_atom else {
                return Err(
                    AtomConnectionTokenError::IllegalStartingToken(
                        ConnectionLayerSubToken::OpenParenthesis,
                    ),
                );
            };
            let ghost arms_v = spec_view_arms_from(branch@, 0);
            let ghost edges0 = edges@;
            proof {
                lemma_view_arms_from(branch@, 0);
            }
            let mut a: usize = 0;
            #[verifier::loop_isolation(false)]
            while a < branch.len()
                invariant
                    a <= branch@.len(),
                    arms_v == spec_view_arms_from(branch@, 0),
                    arms_v.len() == branch@.len(),
                    forall|x: int|
                        0 <= x < branch@.len() ==> arms_v[x] == spec_view_tokens_from(
                            #[trigger] branch@[x]@,
                            0,
                        ),
                    spec_edges_arms(arms_v, a as int, base, edges@) == spec_edges_arms(
                        arms_v,
                        0,
                        base,
                        edges0,
                    ),
                    (forall|k: int|
                        0 <= k < edges0.len() ==> spec_edge_canonical(#[trigger] edges0[k]))
                        ==> forall|k: int|
                        0 <= k < edges@.len() ==> spec_edge_canonical(#[trigger] edges@[k]),
                decreases branch@.len() - a,
            {
                let arm = &branch[a];
                let ghost arm_v = spec_view_tokens_from(arm@, 0);
                proof {
                    lemma_view_tokens_from(arm@, 0);
                }
                let mut branch_last_atom: u16 = base;
                let ghost edges_arm0 = edges@;
                let mut k: usize = 0;
                #[verifier::loop_isolation(false)]
                while k < arm.len()
                    invariant
                        k <= arm@.len(),
                        arm_v == spec_view_tokens_from(arm@, 0),
                        arm_v.len() == arm@.len(),
                        forall|x: int|
                            0 <= x < arm@.len() ==> arm_v[x] == spec_view_token(
                                #[trigger] arm@[x],
                            ),
                        spec_edges_arm(arm_v, k as int, branch_last_atom, edges@)
                            == spec_edges_arm(arm_v, 0, base, edges_arm0),
                        (forall|x: int|
                            0 <= x < edges_arm0.len() ==> spec_edge_canonical(
                                #[trigger] edges_arm0[x],
                            )) ==> forall|x: int|
                            0 <= x < edges@.len() ==> spec_edge_canonical(#[trigger] edges@[x]),
                    decreases arm@.len() - k,
                {
                    proof {
                        assert(decreases_to!(*token => token->Branch_0));
                        assert(decreases_to!(*branch => branch@));
                        assert(decreases_to!(branch@ => branch@[a as int]));
                        assert(decreases_to!(branch@[a as int] => branch@[a as int]@));
                        assert(decreases_to!(branch@[a as int]@ => branch@[a as int]@[k as int]));
                    }
                    match parse_token(Some(branch_last_atom), &arm[k], edges) {
                        Ok(l2) => {
                            branch_last_atom = l2;
                        },
                        Err(e) => {
                            return Err(e);
                        },
                    }
                    k = k + 1;
                }
                a = a + 1;
            }
            Ok(base)
        },
    }
}

/// Extracts the deduplicable edge list of one connection layer component:
/// every edge 0-based and canonicalized as (min, max), in emission order.
pub fn from_connection_layer_token(chars: Vec<char>) -> (r: Result<
    Vec<(u16, u16)>,
    AtomConnectionTokenError,
>)
    ensures
        match spec_conn_edges(chars@) {
            Ok(es) => r matches Ok(v) && v@ == es,
            Err(e) => r == Err::<Vec<(u16, u16)>, _>(e),
        },
        r matches Ok(v) ==> forall|k: int|
            0 <= k < v@.len() ==> spec_edge_canonical(#[trigger] v@[k]),
{
    let ghost s = chars@;
    let mut edges: Vec<(u16, u16)> = Vec::new();
    let mut iter = ConnectionLayerTokenIter::new(chars);
    let mut last_atom: Option<u16> = None;
    #[verifier::loop_isolation(false)]
    loop
        invariant
            iter.wf(),
            iter.tokens.chars@ == s,
            iter.tokens.pos as int <= s.len(),
            spec_conn_edges_from(s, iter.tokens.pos as int, last_atom, edges@) == spec_conn_edges(
                s,
            ),
            forall|k: int| 0 <= k < edges@.len() ==> spec_edge_canonical(#[trigger] edges@[k]),
        decreases s.len() - iter.tokens.pos,
    {
        proof {
            lemma_conn_token_advances(s, iter.tokens.pos as int);
        }
        match iter.next() {
            None => {
                return Ok(edges);
            },
            Some(Err(e)) => {
                return Err(e);
            },
            Some(Ok(token)) => {
                match parse_token(last_atom, &token, &mut edges) {
                    Ok(l2) => {
                        last_atom = Some(l2);
                    },
                    Err(e) => {
                        return Err(e);
                    },
                }
            },
        }
    }
}

} // verus!
