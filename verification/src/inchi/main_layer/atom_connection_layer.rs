//! The atom connection layer: from `/c` text to one undirected molecular
//! graph per mixture component.
//!
//! The layer text (after the `c` prefix) is split on `;` into components;
//! a component may carry a `<digits>*` prefix meaning "repeat this many
//! times", and each occurrence consumes one subformula of the molecular
//! formula.  A shortfall or leftover of subformulas, and a repetition over
//! subformulas of unequal atom counts, fail as a mixture mismatch.  Each
//! distinct component is decoded once into its edges, validated against
//! the subformula's non-hydrogen atom count, and repeated occurrences
//! receive value-equal copies of the one graph.

pub mod connection_layer_token_iter;
pub mod from_connection_layer_token;

use vstd::prelude::*;

use crate::errors::{AtomConnectionTokenError, Error};
use crate::formula::{subformula_counts, subformula_non_hydrogen_counts, ChemicalFormula};
use crate::segments::{
    find_semi, lemma_repetition_bounds, lemma_repetition_in_segment, lemma_semi_end_bounds,
    lex_repetition, semi_end, spec_counts_consumed, spec_repetition, spec_segment_start,
    sub_chars,
};
use crate::text::chars_of;
use from_connection_layer_token::{
    from_connection_layer_token, spec_conn_edges, spec_edge_canonical,
};

verus! {

/// Strict lexicographic order on canonical edge pairs.
pub open spec fn edge_lt(a: (u16, u16), b: (u16, u16)) -> bool {
    a.0 < b.0 || (a.0 == b.0 && a.1 < b.1)
}

/// A strictly ascending (hence duplicate-free) edge list.
pub open spec fn strictly_sorted_edges(es: Seq<(u16, u16)>) -> bool {
    forall|x: int, y: int|
        0 <= x < y < es.len() ==> edge_lt(#[trigger] es[x], #[trigger] es[y])
}

/// A molecular graph: the component's non-hydrogen atom count, and its
/// undirected edges as 0-based canonical (min, max) pairs in strictly
/// ascending order.
#[derive(Debug, PartialEq, Eq)]
pub struct MolecularGraph {
    /// Number of non-hydrogen atoms (vertices) of the component.
    pub num_atoms: u16,
    /// The deduplicated, ascending edge list.
    pub edges: Vec<(u16, u16)>,
}

impl MolecularGraph {
    /// The graph invariant: edges strictly ascending, each pair canonical,
    /// and every endpoint a valid 0-based vertex.
    pub open spec fn wf(&self) -> bool {
        &&& strictly_sorted_edges(self.edges@)
        &&& forall|k: int|
            0 <= k < self.edges@.len() ==> spec_edge_canonical(#[trigger] self.edges@[k])
        &&& forall|k: int|
            0 <= k < self.edges@.len() ==> (#[trigger] self.edges@[k]).1 < self.num_atoms
    }

    /// Whether the graph holds an edge between the 0-based vertices `a`
    /// and `b`, in either order.
    pub open spec fn spec_connected(&self, a: u16, b: u16) -> bool {
        if a <= b {
            self.edges@.contains((a, b))
        } else {
            self.edges@.contains((b, a))
        }
    }

    /// Whether the graph holds an edge between the 0-based vertices `a`
    /// and `b`.
    pub fn connected(&self, a: u16, b: u16) -> (r: bool)
        ensures
            r == self.spec_connected(a, b),
    {
        let e = if a <= b {
            (a, b)
        } else {
            (b, a)
        };
        let mut k: usize = 0;
        #[verifier::loop_isolation(false)]
        while k < self.edges.len()
            invariant
                k <= self.edges@.len(),
                forall|x: int| 0 <= x < k ==> #[trigger] self.edges@[x] != e,
            decreases self.edges@.len() - k,
        {
            if self.edges[k].0 == e.0 && self.edges[k].1 == e.1 {
                proof {
                    assert(self.edges@.contains(e)) by {
                        assert(self.edges@[k as int] == e);
                    }
                }
                return true;
            }
            k = k + 1;
        }
        false
    }
}

impl Clone for MolecularGraph {
    /// A value copy: same atom count, same edges, no sharing.
    fn clone(&self) -> (r: Self)
        ensures
            r.num_atoms == self.num_atoms,
            r.edges@ == self.edges@,
    {
        let mut edges: Vec<(u16, u16)> = Vec::new();
        let mut k: usize = 0;
        while k < self.edges.len()
            invariant
                k <= self.edges@.len(),
                edges@ == self.edges@.subrange(0, k as int),
            decreases self.edges@.len() - k,
        {
            edges.push(self.edges[k]);
            k = k + 1;
            proof {
                assert(edges@ =~= self.edges@.subrange(0, k as int));
            }
        }
        proof {
            assert(edges@ =~= self.edges@);
        }
        MolecularGraph { num_atoms: self.num_atoms, edges }
    }
}

/// Edge symmetry: a graph represents unordered pairs, so whether two
/// vertices are connected does not depend on the order in which they are
/// asked about.
pub proof fn lemma_edge_symmetry(g: &MolecularGraph, a: u16, b: u16)
    ensures
        g.spec_connected(a, b) <==> g.spec_connected(b, a),
{
}

/// No self loops: a well-formed graph never connects a vertex to itself.
pub proof fn lemma_no_self_loops(g: &MolecularGraph, a: u16)
    requires
        g.wf(),
    ensures
        !g.spec_connected(a, a),
{
    if g.edges@.contains((a, a)) {
        let k = choose|k: int| 0 <= k < g.edges@.len() && g.edges@[k] == (a, a);
        assert(spec_edge_canonical(g.edges@[k]));
    }
}

/// Strict comparison of two canonical edge pairs.
fn edge_lt_exec(a: (u16, u16), b: (u16, u16)) -> (r: bool)
    ensures
        r == edge_lt(a, b),
{
    a.0 < b.0 || (a.0 == b.0 && a.1 < b.1)
}

/// Inserts an edge into a strictly sorted edge list, keeping it sorted and
/// dropping the edge if it is already present.
fn insert_edge(sorted: &mut Vec<(u16, u16)>, e: (u16, u16))
    requires
        strictly_sorted_edges(old(sorted)@),
    ensures
        strictly_sorted_edges(final(sorted)@),
        forall|x: (u16, u16)| #[trigger]
            final(sorted)@.contains(x) <==> old(sorted)@.contains(x) || x == e,
{
    let ghost pre = sorted@;
    let mut i: usize = 0;
    #[verifier::loop_isolation(false)]
    while i < sorted.len() && edge_lt_exec(sorted[i], e)
        invariant
            i <= sorted@.len(),
            sorted@ == pre,
            forall|k: int| 0 <= k < i ==> edge_lt(#[trigger] sorted@[k], e),
        decreases sorted@.len() - i,
    {
        i = i + 1;
    }
    if i < sorted.len() && sorted[i].0 == e.0 && sorted[i].1 == e.1 {
        proof {
            assert(pre.contains(e)) by {
                assert(pre[i as int] == e);
            }
        }
        return;
    }
    sorted.insert(i, e);
    proof {
        assert(final(sorted)@ =~= pre.insert(i as int, e));
        let post = pre.insert(i as int, e);
        assert forall|x: int, y: int| 0 <= x < y < post.len() implies edge_lt(
            #[trigger] post[x],
            #[trigger] post[y],
        ) by {
            if y < i {
                assert(post[x] == pre[x] && post[y] == pre[y]);
            } else if y == i {
                assert(post[x] == pre[x] && post[y] == e);
            } else {
                assert(post[y] == pre[y - 1]);
                if x < i {
                    assert(post[x] == pre[x]);
                } else if x == i {
                    assert(post[x] == e);
                    assert(!edge_lt(pre[i as int], e) && pre[i as int] != e);
                } else {
                    assert(post[x] == pre[x - 1]);
                }
            }
        }
        assert forall|x: (u16, u16)| #[trigger]
            post.contains(x) <==> pre.contains(x) || x == e by {
            if post.contains(x) {
                let k = choose|k: int| 0 <= k < post.len() && post[k] == x;
                if k < i {
                    assert(pre[k] == x);
                } else if k > i {
                    assert(pre[k - 1] == x);
                }
            }
            if pre.contains(x) {
                let k = choose|k: int| 0 <= k < pre.len() && pre[k] == x;
                if k < i {
                    assert(post[k] == x);
                } else {
                    assert(post[k + 1] == x);
                }
            }
            if x == e {
                assert(post[i as int] == x);
            }
        }
    }
}

/// Sorts an edge list ascending and removes duplicates, keeping exactly
/// the same set of edges.
fn sort_dedup_edges(edges: &Vec<(u16, u16)>) -> (r: Vec<(u16, u16)>)
    ensures
        strictly_sorted_edges(r@),
        forall|x: (u16, u16)| #[trigger] r@.contains(x) <==> edges@.contains(x),
{
    let mut r: Vec<(u16, u16)> = Vec::new();
    let mut k: usize = 0;
    #[verifier::loop_isolation(false)]
    while k < edges.len()
        invariant
            k <= edges@.len(),
            strictly_sorted_edges(r@),
            forall|x: (u16, u16)| #[trigger]
                r@.contains(x) <==> edges@.subrange(0, k as int).contains(x),
        decreases edges@.len() - k,
    {
        let ghost before = r@;
        insert_edge(&mut r, edges[k]);
        k = k + 1;
        proof {
            let sub = edges@.subrange(0, k as int);
            let sub_prev = edges@.subrange(0, k as int - 1);
            assert forall|x: (u16, u16)| #[trigger] r@.contains(x) <==> sub.contains(x) by {
                assert(sub_prev =~= sub.take(sub.len() - 1));
                if sub.contains(x) {
                    let t = choose|t: int| 0 <= t < sub.len() && sub[t] == x;
                    if t < sub.len() - 1 {
                        assert(sub_prev[t] == x);
                    } else {
                        assert(x == edges@[k - 1]);
                    }
                }
                if sub_prev.contains(x) {
                    let t = choose|t: int| 0 <= t < sub_prev.len() && sub_prev[t] == x;
                    assert(sub[t] == x);
                }
                if x == edges@[k - 1] {
                    assert(sub[sub.len() - 1] == x);
                }
            }
        }
    }
    proof {
        assert(edges@.subrange(0, edges@.len() as int) =~= edges@);
    }
    r
}

/// What validating the emission-order edge list against the component's
/// vertex count yields: the first edge with an endpoint at or beyond the
/// count fails, reported with its 1-based index.
pub open spec fn spec_validate_edges(
    es: Seq<(u16, u16)>,
    k: int,
    num_atoms: u16,
) -> Result<(), AtomConnectionTokenError>
    decreases es.len() - k,
{
    if k < 0 || k >= es.len() {
        Ok(())
    } else if es[k].1 >= num_atoms {
        Err(
            AtomConnectionTokenError::AtomIndexOutOfBounds {
                index: ((es[k].1 + 1) as u16),
                num_atoms: num_atoms as usize,
            },
        )
    } else {
        spec_validate_edges(es, k + 1, num_atoms)
    }
}

/// A validated edge list has every endpoint below the vertex count.
pub proof fn lemma_validate_edges_ok(es: Seq<(u16, u16)>, k: int, num_atoms: u16)
    requires
        0 <= k <= es.len(),
        spec_validate_edges(es, k, num_atoms) is Ok,
    ensures
        forall|t: int| k <= t < es.len() ==> (#[trigger] es[t]).1 < num_atoms,
    decreases es.len() - k,
{
    if k < es.len() {
        lemma_validate_edges_ok(es, k + 1, num_atoms);
    }
}

/// Validates every edge endpoint against the component's vertex count.
fn validate_edges(es: &Vec<(u16, u16)>, num_atoms: u16) -> (r: Result<
    (),
    AtomConnectionTokenError,
>)
    requires
        forall|k: int| 0 <= k < es@.len() ==> spec_edge_canonical(#[trigger] es@[k]),
    ensures
        r == spec_validate_edges(es@, 0, num_atoms),
{
    let mut k: usize = 0;
    #[verifier::loop_isolation(false)]
    while k < es.len()
        invariant
            k <= es@.len(),
            spec_validate_edges(es@, 0, num_atoms) == spec_validate_edges(
                es@,
                k as int,
                num_atoms,
            ),
        decreases es@.len() - k,
    {
        let e = es[k];
        if e.1 >= num_atoms {
            return Err(
                AtomConnectionTokenError::AtomIndexOutOfBounds {
                    index: e.1 + 1,
                    num_atoms: num_atoms as usize,
                },
            );
        }
        k = k + 1;
    }
    Ok(())
}

/// What decoding one component body against its subformula's non-hydrogen
/// atom count yields: the emission-order edge list of a valid component,
/// or the first error.  A count beyond the index width fails before the
/// body is read, and an emitted edge list longer than the index width
/// fails before its endpoints are validated.
pub open spec fn spec_component(seg: Seq<char>, count: usize) -> Result<Seq<(u16, u16)>, Error> {
    if count > 65535 {
        Err(Error::TryFromIntError)
    } else {
        match spec_conn_edges(seg) {
            Err(e) => Err(Error::AtomConnectionTokenError(e)),
            Ok(es) => if es.len() > 65535 {
                Err(Error::TryFromIntError)
            } else {
                match spec_validate_edges(es, 0, count as u16) {
                    Err(e) => Err(Error::AtomConnectionTokenError(e)),
                    Ok(u) => Ok(es),
                }
            },
        }
    }
}

/// A graph agrees with a decoded component model: same vertex count, and
/// exactly the model's edges, well formed.
pub open spec fn graph_matches(g: MolecularGraph, m: (usize, Seq<(u16, u16)>)) -> bool {
    &&& g.wf()
    &&& g.num_atoms as usize == m.0
    &&& forall|x: (u16, u16)| #[trigger] g.edges@.contains(x) <==> m.1.contains(x)
}

/// Builds the graph of one component body.
fn build_graph(seg: Vec<char>, count: usize) -> (r: Result<MolecularGraph, Error>)
    ensures
        match spec_component(seg@, count) {
            Ok(es) => r matches Ok(g) && graph_matches(g, (count, es)),
            Err(e) => r == Err::<MolecularGraph, _>(e),
        },
{
    if count > 65535 {
        return Err(Error::TryFromIntError);
    }
    let num_atoms: u16 = count as u16;
    let edges = match from_connection_layer_token(seg) {
        Ok(es) => es,
        Err(e) => {
            return Err(Error::AtomConnectionTokenError(e));
        },
    };
    if edges.len() > 65535 {
        return Err(Error::TryFromIntError);
    }
    match validate_edges(&edges, num_atoms) {
        Ok(_) => {},
        Err(e) => {
            return Err(Error::AtomConnectionTokenError(e));
        },
    }
    let sorted = sort_dedup_edges(&edges);
    let g = MolecularGraph { num_atoms, edges: sorted };
    proof {
        lemma_validate_edges_ok(edges@, 0, num_atoms);
        assert forall|k: int| 0 <= k < g.edges@.len() implies spec_edge_canonical(
            #[trigger] g.edges@[k],
        ) && g.edges@[k].1 < g.num_atoms by {
            assert(g.edges@.contains(g.edges@[k]));
            let t = choose|t: int| 0 <= t < edges@.len() && edges@[t] == g.edges@[k];
        }
    }
    Ok(g)
}

/// What decoding the components from position `i`, against the subformula
/// counts from index `k`, yields: one (count, edges) model per mixture
/// component, repetition prefixes expanded, or the first error.
pub open spec fn spec_conn_components(
    s: Seq<char>,
    i: int,
    counts: Seq<usize>,
    k: int,
) -> Result<Seq<(usize, Seq<(u16, u16)>)>, Error>
    decreases s.len() - i,
    via spec_conn_components_dec
{
    let e = semi_end(s, i);
    let (reps, body) = spec_repetition(s, i);
    if k < 0 || k >= counts.len() {
        Err(Error::FormulaAndConnectionLayerMixtureMismatch(counts.len() as usize))
    } else if !(0 <= i <= body <= e <= s.len()) {
        // Cannot happen: the prefix and the separator lie within the text.
        Err(Error::TryFromIntError)
    } else {
        match spec_component(s.subrange(body, e), counts[k]) {
            Err(err) => Err(err),
            Ok(es) => if k + reps > counts.len() {
                Err(Error::FormulaAndConnectionLayerMixtureMismatch(counts.len() as usize))
            } else if exists|t: int| k < t < k + reps && counts[t] != counts[k] {
                Err(Error::FormulaAndConnectionLayerMixtureMismatch(counts.len() as usize))
            } else {
                let here = Seq::new(reps as nat, |q: int| (counts[k], es));
                if e >= s.len() {
                    if k + reps == counts.len() {
                        Ok(here)
                    } else {
                        Err(Error::FormulaAndConnectionLayerMixtureMismatch(counts.len() as usize))
                    }
                } else {
                    match spec_conn_components(s, e + 1, counts, k + reps) {
                        Ok(rest) => Ok(here + rest),
                        Err(err) => Err(err),
                    }
                }
            },
        }
    }
}

#[via_fn]
proof fn spec_conn_components_dec(s: Seq<char>, i: int, counts: Seq<usize>, k: int) {
    if 0 <= i <= s.len() {
        lemma_semi_end_bounds(s, i);
    }
}

/// What decoding a whole connection layer (with its `c` prefix) against
/// the subformula counts yields.
pub open spec fn spec_conn_layer(s: Seq<char>, counts: Seq<usize>) -> Result<
    Seq<(usize, Seq<(u16, u16)>)>,
    Error,
> {
    if s.len() == 0 || s[0] != 'c' {
        Err(Error::MissingInchiPrefix)
    } else {
        spec_conn_components(s, 1, counts, 0)
    }
}

/// Decodes the components from position `i` on, consuming subformula
/// counts from index `k` on.
fn parse_components(s: &Vec<char>, i: usize, counts: &Vec<usize>, k: usize) -> (r: Result<
    Vec<MolecularGraph>,
    Error,
>)
    requires
        i <= s@.len(),
        k <= counts@.len(),
    ensures
        match spec_conn_components(s@, i as int, counts@, k as int) {
            Ok(models) => r matches Ok(v) && v@.len() == models.len() && forall|idx: int|
                0 <= idx < models.len() ==> graph_matches(#[trigger] v@[idx], models[idx]),
            Err(e) => r == Err::<Vec<MolecularGraph>, _>(e),
        },
        r matches Ok(v) ==> v@.len() == counts@.len() - k && forall|idx: int|
            0 <= idx < v@.len() ==> (#[trigger] v@[idx]).num_atoms as usize == counts@[k + idx],
    decreases s@.len() - i,
{
    proof {
        lemma_semi_end_bounds(s@, i as int);
        lemma_repetition_bounds(s@, i as int);
        lemma_repetition_in_segment(s@, i as int);
    }
    let e = find_semi(s, i);
    let (reps, body) = lex_repetition(s, i);
    if k >= counts.len() {
        return Err(Error::FormulaAndConnectionLayerMixtureMismatch(counts.len()));
    }
    let body_chars = sub_chars(s, body, e);
    let count = counts[k];
    let g = match build_graph(body_chars, count) {
        Ok(g) => g,
        Err(err) => {
            return Err(err);
        },
    };
    let ghost es = match spec_component(s@.subrange(body as int, e as int), count) {
        Ok(es) => es,
        Err(_) => Seq::empty(),
    };
    if reps as usize > counts.len() - k {
        return Err(Error::FormulaAndConnectionLayerMixtureMismatch(counts.len()));
    }
    let mut t: usize = 1;
    #[verifier::loop_isolation(false)]
    while t < reps as usize
        invariant
            1 <= t <= reps as usize,
            forall|x: int| k < x < k + t ==> counts@[x] == counts@[k as int],
        decreases reps as usize - t,
    {
        if counts[k + t] != count {
            return Err(Error::FormulaAndConnectionLayerMixtureMismatch(counts.len()));
        }
        t = t + 1;
    }
    let mut result: Vec<MolecularGraph> = Vec::new();
    let mut q: usize = 0;
    #[verifier::loop_isolation(false)]
    while q < reps as usize
        invariant
            q <= reps as usize,
            result@.len() == q,
            forall|idx: int|
                0 <= idx < q ==> graph_matches(#[trigger] result@[idx], (count, es)),
        decreases reps as usize - q,
    {
        result.push(g.clone());
        q = q + 1;
    }
    let ghost here = Seq::new(reps as nat, |x: int| (count, es));
    if e == s.len() {
        if k + reps as usize == counts.len() {
            Ok(result)
        } else {
            Err(Error::FormulaAndConnectionLayerMixtureMismatch(counts.len()))
        }
    } else {
        match parse_components(s, e + 1, counts, k + reps as usize) {
            Ok(mut rest) => {
                let ghost rest_v = rest@;
                let ghost restm = match spec_conn_components(
                    s@,
                    e as int + 1,
                    counts@,
                    k as int + reps as int,
                ) {
                    Ok(m) => m,
                    Err(_) => Seq::empty(),
                };
                result.append(&mut rest);
                proof {
                    assert(result@ =~= result@.subrange(0, reps as int) + rest_v);
                    assert forall|idx: int|
                        0 <= idx < here.len() + restm.len() implies graph_matches(
                        #[trigger] result@[idx],
                        (here + restm)[idx],
                    ) by {
                        if idx < reps as int {
                            assert(result@[idx] == result@.subrange(0, reps as int)[idx]);
                        } else {
                            assert(result@[idx] == rest_v[idx - reps as int]);
                        }
                    }
                }
                Ok(result)
            },
            Err(err) => Err(err),
        }
    }
}

/// A component-count/subformula-count mismatch, in either direction,
/// fails as a mixture mismatch carrying the formula's component count: a
/// segment reached with the counts exhausted fails at once, and a final
/// segment that leaves counts unconsumed fails even though its own
/// component decoded.
pub proof fn lemma_conn_mixture_mismatch(s: Seq<char>, i: int, counts: Seq<usize>, k: int)
    requires
        0 <= i <= s.len(),
        0 <= k,
    ensures
        k >= counts.len() ==> spec_conn_components(s, i, counts, k) == Err::<
            Seq<(usize, Seq<(u16, u16)>)>,
            Error,
        >(Error::FormulaAndConnectionLayerMixtureMismatch(counts.len() as usize)),
        ({
            let e = semi_end(s, i);
            let (reps, body) = spec_repetition(s, i);
            (k < counts.len() && e >= s.len() && spec_component(s.subrange(body, e), counts[k])
                is Ok && k + reps <= counts.len() && (forall|t: int|
                k < t < k + reps ==> counts[t] == counts[k]) && k + reps != counts.len())
                ==> spec_conn_components(s, i, counts, k) == Err::<
                Seq<(usize, Seq<(u16, u16)>)>,
                Error,
            >(Error::FormulaAndConnectionLayerMixtureMismatch(counts.len() as usize))
        }),
{
    lemma_semi_end_bounds(s, i);
    lemma_repetition_bounds(s, i);
    lemma_repetition_in_segment(s, i);
}

/// A `<n>*` repetition prefix yields exactly `n` value-equal graph
/// models and consumes exactly `n` subformulas: the first segment of an
/// accepted layer tail contributes its first `n` models as copies of one
/// decoded component, and the remaining models decode against the counts
/// from `k + n` on.
pub proof fn lemma_conn_repetition(s: Seq<char>, i: int, counts: Seq<usize>, k: int)
    requires
        0 <= i <= s.len(),
        0 <= k,
        spec_conn_components(s, i, counts, k) is Ok,
    ensures
        ({
            let models = spec_conn_components(s, i, counts, k)->Ok_0;
            let reps = spec_repetition(s, i).0;
            &&& reps as int <= models.len()
            &&& forall|q: int| 0 <= q < reps as int ==> #[trigger] models[q] == models[0]
            &&& forall|q: int| 0 <= q < reps as int ==> (#[trigger] models[q]).0 == counts[k]
            &&& semi_end(s, i) < s.len() ==> spec_conn_components(s, semi_end(s, i) + 1, counts, k + reps as int) is Ok
                && models.skip(reps as int) == spec_conn_components(s, semi_end(s, i) + 1, counts, k + reps as int)->Ok_0
        }),
{
    lemma_semi_end_bounds(s, i);
    lemma_repetition_bounds(s, i);
    lemma_repetition_in_segment(s, i);
    let models = spec_conn_components(s, i, counts, k)->Ok_0;
    let e = semi_end(s, i);
    let reps = spec_repetition(s, i).0;
    if e < s.len() {
        let rest = spec_conn_components(s, e + 1, counts, k + reps as int)->Ok_0;
        assert(models.skip(reps as int) =~= rest);
    }
}

/// The repetition law at an arbitrary component position: in an accepted
/// layer tail, the `q`-th segment contributes the models that stand at
/// the offset of the subformulas the earlier segments consumed, as value
/// copies of one decoded component, one per repetition.
pub proof fn lemma_conn_repetition_at(s: Seq<char>, i: int, counts: Seq<usize>, k: int, q: int)
    requires
        0 <= i <= s.len(),
        0 <= k,
        0 <= q,
        spec_conn_components(s, i, counts, k) is Ok,
        forall|t: int|
            0 <= t < q ==> semi_end(s, #[trigger] spec_segment_start(s, i, t)) < s.len(),
    ensures
        ({
            let start_q = spec_segment_start(s, i, q);
            let off = spec_counts_consumed(s, i, q);
            let models = spec_conn_components(s, i, counts, k)->Ok_0;
            let reps = spec_repetition(s, start_q).0;
            &&& 0 <= start_q <= s.len()
            &&& 0 <= off
            &&& spec_conn_components(s, start_q, counts, k + off) is Ok
            &&& off + reps as int <= models.len()
            &&& forall|x: int| 0 <= x < reps as int ==> #[trigger] models[off + x] == models[off]
            &&& forall|x: int|
                0 <= x < reps as int ==> (#[trigger] models[off + x]).0 == counts[k + off]
        }),
    decreases q,
{
    lemma_conn_repetition(s, i, counts, k);
    if q > 0 {
        assert(semi_end(s, spec_segment_start(s, i, 0)) < s.len());
        let e = semi_end(s, i);
        lemma_semi_end_bounds(s, i);
        let reps0 = spec_repetition(s, i).0;
        let models = spec_conn_components(s, i, counts, k)->Ok_0;
        let tail = spec_conn_components(s, e + 1, counts, k + reps0 as int)->Ok_0;
        assert forall|t: int| 0 <= t < q - 1 implies semi_end(
            s,
            #[trigger] spec_segment_start(s, e + 1, t),
        ) < s.len() by {
            assert(spec_segment_start(s, i, t + 1) == spec_segment_start(s, e + 1, t));
        }
        lemma_conn_repetition_at(s, e + 1, counts, k + reps0 as int, q - 1);
        let off1 = spec_counts_consumed(s, e + 1, q - 1);
        assert(models.skip(reps0 as int) == tail);
        assert forall|y: int| 0 <= y < tail.len() implies models[reps0 as int + y] == tail[y] by {
            assert(models.skip(reps0 as int)[y] == models[reps0 as int + y]);
        }
        assert(spec_segment_start(s, i, q) == spec_segment_start(s, e + 1, q - 1));
        assert(spec_counts_consumed(s, i, q) == reps0 as int + off1);
        let start_q = spec_segment_start(s, e + 1, q - 1);
        let repsq = spec_repetition(s, start_q).0;
        assert forall|x: int| 0 <= x < repsq as int implies models[reps0 as int + off1 + x]
            == models[reps0 as int + off1] && (#[trigger] models[reps0 as int + off1 + x]).0
            == counts[k + reps0 as int + off1] by {
            assert(models[reps0 as int + off1 + x] == tail[off1 + x]);
            assert(models[reps0 as int + off1] == tail[off1]);
        }
    }
}

/// A decoded connection layer agrees with its models, one graph per
/// mixture component, in order.
pub open spec fn conn_layer_matches(
    l: AtomConnectionLayer,
    models: Seq<(usize, Seq<(u16, u16)>)>,
) -> bool {
    &&& l.graphs@.len() == models.len()
    &&& forall|idx: int|
        0 <= idx < models.len() ==> graph_matches(#[trigger] l.graphs@[idx], models[idx])
}

/// One undirected molecular graph per mixture component, in the same
/// order as the formula's subformulas.
#[derive(Debug, PartialEq, Eq)]
pub struct AtomConnectionLayer {
    /// The graphs, one per mixture component.
    pub graphs: Vec<MolecularGraph>,
}

impl AtomConnectionLayer {
    /// Decodes a whole connection layer text (with its `c` prefix)
    /// against the subformula counts of the molecular formula.
    pub fn parse_with_counts(input: &Vec<char>, counts: &Vec<usize>) -> (r: Result<
        AtomConnectionLayer,
        Error,
    >)
        ensures
            match spec_conn_layer(input@, counts@) {
                Ok(models) => r matches Ok(l) && l.graphs@.len() == models.len() && forall|
                    idx: int,
                |
                    0 <= idx < models.len() ==> graph_matches(
                        #[trigger] l.graphs@[idx],
                        models[idx],
                    ),
                Err(e) => r == Err::<AtomConnectionLayer, _>(e),
            },
            r matches Ok(l) ==> l.graphs@.len() == counts@.len() && forall|idx: int|
                0 <= idx < l.graphs@.len() ==> (#[trigger] l.graphs@[idx]).num_atoms as usize
                    == counts@[idx],
    {
        if input.len() == 0 {
            return Err(Error::MissingInchiPrefix);
        }
        let c0 = input[0];
        if c0 != 'c' {
            return Err(Error::MissingInchiPrefix);
        }
        match parse_components(input, 1, counts, 0) {
            Ok(graphs) => Ok(AtomConnectionLayer { graphs }),
            Err(e) => Err(e),
        }
    }

    /// Decodes a whole connection layer text (with its `c` prefix) in the
    /// context of its parsed molecular formula, whose subformula counts
    /// the graphs are validated against.
    pub fn from_str_with_context(input: &str, context: &ChemicalFormula) -> (r: Result<
        AtomConnectionLayer,
        Error,
    >)
        ensures
            match spec_conn_layer(input@, subformula_counts(*context)) {
                Ok(models) => r matches Ok(l) && l.graphs@.len() == models.len() && forall|
                    idx: int,
                |
                    0 <= idx < models.len() ==> graph_matches(
                        #[trigger] l.graphs@[idx],
                        models[idx],
                    ),
                Err(e) => r == Err::<AtomConnectionLayer, _>(e),
            },
            r matches Ok(l) ==> l.graphs@.len() == subformula_counts(*context).len() && forall|
                idx: int,
            |
                0 <= idx < l.graphs@.len() ==> (#[trigger] l.graphs@[idx]).num_atoms as usize
                    == subformula_counts(*context)[idx],
    {
        let chars = chars_of(input);
        let counts = subformula_non_hydrogen_counts(context);
        AtomConnectionLayer::parse_with_counts(&chars, &counts)
    }
}

} // verus!
