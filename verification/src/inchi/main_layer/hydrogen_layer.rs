//! The hydrogen layer: fixed and mobile (tautomeric) hydrogen assignment.

pub mod sub_tokens;
pub mod token_iter;

use vstd::prelude::*;

use crate::errors::Error;
use crate::formula::{subformula_counts, subformula_non_hydrogen_counts, ChemicalFormula};
use crate::segments::{
    find_semi, lemma_repetition_bounds, lemma_repetition_in_segment, lemma_semi_end_bounds,
    lex_repetition, semi_end, spec_counts_consumed, spec_repetition, spec_segment_start,
    sub_chars,
};
use crate::text::chars_of;

verus! {

/// The mathematical shape of a mobile hydrogen group.
pub struct SpecMobileGroup {
    /// Number of mobile hydrogens in the group.
    pub count: u8,
    /// Whether these are charged mobile hydrogens.
    pub charged: bool,
    /// Zero-based candidate atom indices.
    pub atoms: Seq<u16>,
}

/// A group of mobile (tautomeric) hydrogens delocalized over `atoms`.
#[derive(Debug, PartialEq, Eq)]
pub struct MobileHydrogenGroup {
    /// Number of mobile hydrogens in this group.
    pub count: u8,
    /// Whether these are charged mobile hydrogens (from `(H-,...)`).
    pub charged: bool,
    /// Zero-based atom indices that are possible protonation sites.
    pub atoms: Vec<u16>,
}

impl View for MobileHydrogenGroup {
    type V = SpecMobileGroup;

    open spec fn view(&self) -> SpecMobileGroup {
        SpecMobileGroup { count: self.count, charged: self.charged, atoms: self.atoms@ }
    }
}

/// The mathematical shapes of a list of mobile groups.
pub open spec fn groups_view(gs: Seq<MobileHydrogenGroup>) -> Seq<SpecMobileGroup> {
    gs.map_values(|g: MobileHydrogenGroup| g@)
}

/// Hydrogen data for one mixture component.
///
/// `fixed_h[i]` is the number of fixed hydrogens on the atom with 0-based
/// index `i`; `0` means the atom is absent from the layer.
#[derive(Debug, PartialEq, Eq)]
pub struct HydrogenComponent {
    /// Per-atom fixed hydrogen counts, indexed by 0-based atom index.
    pub fixed_h: Vec<u8>,
    /// Mobile hydrogen groups of this component, in order of appearance.
    pub mobile_groups: Vec<MobileHydrogenGroup>,
}

/// Every candidate atom of every mobile group is a valid 0-based index.
pub open spec fn groups_bounded(gs: Seq<SpecMobileGroup>, num_atoms: usize) -> bool {
    forall|g: int, t: int|
        0 <= g < gs.len() && 0 <= t < gs[g].atoms.len() ==> (#[trigger] gs[g].atoms[t])
            < num_atoms
}

impl Clone for MobileHydrogenGroup {
    /// A value copy: same count, charge and candidate atoms, no sharing.
    fn clone(&self) -> (r: Self)
        ensures
            r@ == self@,
    {
        let mut atoms: Vec<u16> = Vec::new();
        let mut k: usize = 0;
        while k < self.atoms.len()
            invariant
                k <= self.atoms@.len(),
                atoms@ == self.atoms@.subrange(0, k as int),
            decreases self.atoms@.len() - k,
        {
            atoms.push(self.atoms[k]);
            k = k + 1;
            proof {
                assert(atoms@ =~= self.atoms@.subrange(0, k as int));
            }
        }
        proof {
            assert(atoms@ =~= self.atoms@);
        }
        MobileHydrogenGroup { count: self.count, charged: self.charged, atoms }
    }
}

impl Clone for HydrogenComponent {
    /// A value copy: same per-atom counts and mobile groups, no sharing.
    fn clone(&self) -> (r: Self)
        ensures
            r.fixed_h@ == self.fixed_h@,
            groups_view(r.mobile_groups@) == groups_view(self.mobile_groups@),
    {
        let mut fixed_h: Vec<u8> = Vec::new();
        let mut k: usize = 0;
        while k < self.fixed_h.len()
            invariant
                k <= self.fixed_h@.len(),
                fixed_h@ == self.fixed_h@.subrange(0, k as int),
            decreases self.fixed_h@.len() - k,
        {
            fixed_h.push(self.fixed_h[k]);
            k = k + 1;
            proof {
                assert(fixed_h@ =~= self.fixed_h@.subrange(0, k as int));
            }
        }
        let mut mobile_groups: Vec<MobileHydrogenGroup> = Vec::new();
        let mut g: usize = 0;
        proof {
            assert(groups_view(mobile_groups@) =~~= groups_view(
                self.mobile_groups@.subrange(0, 0),
            ));
        }
        while g < self.mobile_groups.len()
            invariant
                g <= self.mobile_groups@.len(),
                mobile_groups@.len() == g,
                groups_view(mobile_groups@) == groups_view(
                    self.mobile_groups@.subrange(0, g as int),
                ),
            decreases self.mobile_groups@.len() - g,
        {
            let ghost pre = mobile_groups@;
            let c = self.mobile_groups[g].clone();
            proof {
                assert(c@ == self.mobile_groups@[g as int]@);
            }
            mobile_groups.push(c);
            g = g + 1;
            proof {
                let subg = self.mobile_groups@.subrange(0, g as int);
                let subg1 = self.mobile_groups@.subrange(0, g as int - 1);
                assert forall|i: int| 0 <= i < g implies groups_view(mobile_groups@)[i]
                    == groups_view(subg)[i] by {
                    assert(groups_view(mobile_groups@)[i] == mobile_groups@[i]@);
                    assert(groups_view(subg)[i] == subg[i]@);
                    assert(subg[i] == self.mobile_groups@[i]);
                    if i < g - 1 {
                        assert(groups_view(pre)[i] == groups_view(subg1)[i]);
                        assert(groups_view(pre)[i] == pre[i]@);
                        assert(groups_view(subg1)[i] == subg1[i]@);
                        assert(subg1[i] == self.mobile_groups@[i]);
                        assert(mobile_groups@[i] == pre[i]);
                    } else {
                        assert(mobile_groups@[i] == c);
                    }
                }
                assert(groups_view(mobile_groups@) =~= groups_view(subg));
            }
        }
        proof {
            assert(fixed_h@ =~= self.fixed_h@);
            assert(self.mobile_groups@.subrange(0, self.mobile_groups@.len() as int)
                =~= self.mobile_groups@);
        }
        HydrogenComponent { fixed_h, mobile_groups }
    }
}


/// A component agrees with its decoded model: the same per-atom counts
/// and the same mobile groups.
pub open spec fn component_matches(c: HydrogenComponent, m: (Seq<u8>, Seq<SpecMobileGroup>)) -> bool {
    &&& c.fixed_h@ == m.0
    &&& groups_view(c.mobile_groups@) == m.1
}

/// What decoding the hydrogen components from position `i`, against the
/// subformula counts from index `k`, yields: one model per mixture
/// component, repetition prefixes expanded, or the first error.
pub open spec fn spec_h_components(
    s: Seq<char>,
    i: int,
    counts: Seq<usize>,
    k: int,
) -> Result<Seq<(Seq<u8>, Seq<SpecMobileGroup>)>, Error>
    decreases s.len() - i,
    via spec_h_components_dec
{
    let e = semi_end(s, i);
    let (reps, body) = spec_repetition(s, i);
    if k < 0 || k >= counts.len() {
        Err(Error::FormulaAndConnectionLayerMixtureMismatch(counts.len() as usize))
    } else if !(0 <= i <= body <= e <= s.len()) {
        // Cannot happen: the prefix and the separator lie within the text.
        Err(Error::TryFromIntError)
    } else {
        match token_iter::spec_h_component(s.subrange(body, e), counts[k]) {
            Err(err) => Err(Error::HydrogenLayerTokenError(err)),
            Ok(m) => if k + reps > counts.len() {
                Err(Error::FormulaAndConnectionLayerMixtureMismatch(counts.len() as usize))
            } else if exists|t: int| k < t < k + reps && counts[t] != counts[k] {
                Err(Error::FormulaAndConnectionLayerMixtureMismatch(counts.len() as usize))
            } else {
                let here = Seq::new(reps as nat, |q: int| m);
                if e >= s.len() {
                    if k + reps == counts.len() {
                        Ok(here)
                    } else {
                        Err(Error::FormulaAndConnectionLayerMixtureMismatch(counts.len() as usize))
                    }
                } else {
                    match spec_h_components(s, e + 1, counts, k + reps) {
                        Ok(rest) => Ok(here + rest),
                        Err(err) => Err(err),
                    }
                }
            },
        }
    }
}

#[via_fn]
proof fn spec_h_components_dec(s: Seq<char>, i: int, counts: Seq<usize>, k: int) {
    if 0 <= i <= s.len() {
        lemma_semi_end_bounds(s, i);
    }
}

/// What decoding a whole hydrogen layer (with its `h` prefix) against the
/// subformula counts yields.
pub open spec fn spec_h_layer(s: Seq<char>, counts: Seq<usize>) -> Result<
    Seq<(Seq<u8>, Seq<SpecMobileGroup>)>,
    Error,
> {
    if s.len() == 0 || s[0] != 'h' {
        Err(Error::WrongPrefix)
    } else {
        spec_h_components(s, 1, counts, 0)
    }
}

/// Decodes the hydrogen components from position `i` on, consuming
/// subformula counts from index `k` on.
fn parse_h_components(s: &Vec<char>, i: usize, counts: &Vec<usize>, k: usize) -> (r: Result<
    Vec<HydrogenComponent>,
    Error,
>)
    requires
        i <= s@.len(),
        k <= counts@.len(),
    ensures
        match spec_h_components(s@, i as int, counts@, k as int) {
            Ok(models) => r matches Ok(v) && v@.len() == models.len() && forall|idx: int|
                0 <= idx < models.len() ==> component_matches(#[trigger] v@[idx], models[idx]),
            Err(e) => r == Err::<Vec<HydrogenComponent>, _>(e),
        },
        r matches Ok(v) ==> v@.len() == counts@.len() - k && forall|idx: int|
            0 <= idx < v@.len() ==> (#[trigger] v@[idx]).fixed_h@.len() == counts@[k + idx]
                && groups_bounded(groups_view(v@[idx].mobile_groups@), counts@[k + idx]),
    decreases s@.len() - i,
{
    proof {
        lemma_semi_end_bounds(s@, i as int);
        lemma_repetition_bounds(s@, i as int);
        lemma_repetition_in_segment(s@, i as int);
    }
    let e = find_semi(s, i);
    let (reps, body) = lex_repetition(s, i);
    if k >= counts.len() {
        return Err(Error::FormulaAndConnectionLayerMixtureMismatch(counts.len()));
    }
    let body_chars = sub_chars(s, body, e);
    let count = counts[k];
    let comp = match token_iter::parse_component(body_chars, count) {
        Ok(c) => c,
        Err(err) => {
            return Err(Error::HydrogenLayerTokenError(err));
        },
    };
    let ghost m = match token_iter::spec_h_component(s@.subrange(body as int, e as int), count) {
        Ok(m) => m,
        Err(_) => (Seq::empty(), Seq::empty()),
    };
    if reps as usize > counts.len() - k {
        return Err(Error::FormulaAndConnectionLayerMixtureMismatch(counts.len()));
    }
    let mut t: usize = 1;
    #[verifier::loop_isolation(false)]
    while t < reps as usize
        invariant
            1 <= t <= reps as usize,
            forall|x: int| k < x < k + t ==> counts@[x] == counts@[k as int],
        decreases reps as usize - t,
    {
        if counts[k + t] != count {
            return Err(Error::FormulaAndConnectionLayerMixtureMismatch(counts.len()));
        }
        t = t + 1;
    }
    let mut result: Vec<HydrogenComponent> = Vec::new();
    let mut q: usize = 0;
    #[verifier::loop_isolation(false)]
    while q < reps as usize
        invariant
            q <= reps as usize,
            result@.len() == q,
            forall|idx: int|
                0 <= idx < q ==> component_matches(#[trigger] result@[idx], m)
                    && result@[idx].fixed_h@.len() == count && groups_bounded(
                    groups_view(result@[idx].mobile_groups@),
                    count,
                ),
        decreases reps as usize - q,
    {
        result.push(comp.clone());
        q = q + 1;
    }
    let ghost here = Seq::new(reps as nat, |x: int| m);
    if e == s.len() {
        if k + reps as usize == counts.len() {
            Ok(result)
        } else {
            Err(Error::FormulaAndConnectionLayerMixtureMismatch(counts.len()))
        }
    } else {
        match parse_h_components(s, e + 1, counts, k + reps as usize) {
            Ok(mut rest) => {
                let ghost rest_v = rest@;
                result.append(&mut rest);
                proof {
                    assert(result@ =~= result@.subrange(0, reps as int) + rest_v);
                    let restm = match spec_h_components(
                        s@,
                        e as int + 1,
                        counts@,
                        k as int + reps as int,
                    ) {
                        Ok(mm) => mm,
                        Err(_) => Seq::empty(),
                    };
                    assert forall|idx: int|
                        0 <= idx < here.len() + restm.len() implies component_matches(
                        #[trigger] result@[idx],
                        (here + restm)[idx],
                    ) by {
                        if idx < reps as int {
                            assert(result@[idx] == result@.subrange(0, reps as int)[idx]);
                        } else {
                            assert(result@[idx] == rest_v[idx - reps as int]);
                        }
                    }
                }
                Ok(result)
            },
            Err(err) => Err(err),
        }
    }
}

/// A component-count/subformula-count mismatch, in either direction,
/// fails as a mixture mismatch carrying the formula's component count: a
/// segment reached with the counts exhausted fails at once, and a final
/// segment that leaves counts unconsumed fails even though its own
/// component decoded.
pub proof fn lemma_h_mixture_mismatch(s: Seq<char>, i: int, counts: Seq<usize>, k: int)
    requires
        0 <= i <= s.len(),
        0 <= k,
    ensures
        k >= counts.len() ==> spec_h_components(s, i, counts, k) == Err::<
            Seq<(Seq<u8>, Seq<SpecMobileGroup>)>,
            Error,
        >(Error::FormulaAndConnectionLayerMixtureMismatch(counts.len() as usize)),
        ({
            let e = semi_end(s, i);
            let (reps, body) = spec_repetition(s, i);
            (k < counts.len() && e >= s.len() && token_iter::spec_h_component(
                s.subrange(body, e),
                counts[k],
            ) is Ok && k + reps <= counts.len() && (forall|t: int|
                k < t < k + reps ==> counts[t] == counts[k]) && k + reps != counts.len())
                ==> spec_h_components(s, i, counts, k) == Err::<
                Seq<(Seq<u8>, Seq<SpecMobileGroup>)>,
                Error,
            >(Error::FormulaAndConnectionLayerMixtureMismatch(counts.len() as usize))
        }),
{
    lemma_semi_end_bounds(s, i);
    lemma_repetition_bounds(s, i);
    lemma_repetition_in_segment(s, i);
}

/// A `<n>*` repetition prefix yields exactly `n` value-equal component
/// models and consumes exactly `n` subformulas: the first segment of an
/// accepted layer tail contributes its first `n` models as copies of one
/// decoded component, and the remaining models decode against the counts
/// from `k + n` on.
pub proof fn lemma_h_repetition(s: Seq<char>, i: int, counts: Seq<usize>, k: int)
    requires
        0 <= i <= s.len(),
        0 <= k,
        spec_h_components(s, i, counts, k) is Ok,
    ensures
        ({
            let models = spec_h_components(s, i, counts, k)->Ok_0;
            let reps = spec_repetition(s, i).0;
            &&& reps as int <= models.len()
            &&& forall|q: int| 0 <= q < reps as int ==> #[trigger] models[q] == models[0]
            &&& semi_end(s, i) < s.len() ==> spec_h_components(s, semi_end(s, i) + 1, counts, k + reps as int) is Ok
                && models.skip(reps as int) == spec_h_components(s, semi_end(s, i) + 1, counts, k + reps as int)->Ok_0
        }),
{
    lemma_semi_end_bounds(s, i);
    lemma_repetition_bounds(s, i);
    lemma_repetition_in_segment(s, i);
    let models = spec_h_components(s, i, counts, k)->Ok_0;
    let e = semi_end(s, i);
    let reps = spec_repetition(s, i).0;
    if e < s.len() {
        let rest = spec_h_components(s, e + 1, counts, k + reps as int)->Ok_0;
        assert(models.skip(reps as int) =~= rest);
    }
}

/// The repetition law at an arbitrary component position: in an accepted
/// layer tail, the `q`-th segment contributes the models that stand at
/// the offset of the subformulas the earlier segments consumed, as value
/// copies of one decoded component, one per repetition.
pub proof fn lemma_h_repetition_at(s: Seq<char>, i: int, counts: Seq<usize>, k: int, q: int)
    requires
        0 <= i <= s.len(),
        0 <= k,
        0 <= q,
        spec_h_components(s, i, counts, k) is Ok,
        forall|t: int|
            0 <= t < q ==> semi_end(s, #[trigger] spec_segment_start(s, i, t)) < s.len(),
    ensures
        ({
            let start_q = spec_segment_start(s, i, q);
            let off = spec_counts_consumed(s, i, q);
            let models = spec_h_components(s, i, counts, k)->Ok_0;
            let reps = spec_repetition(s, start_q).0;
            &&& 0 <= start_q <= s.len()
            &&& 0 <= off
            &&& spec_h_components(s, start_q, counts, k + off) is Ok
            &&& off + reps as int <= models.len()
            &&& forall|x: int| 0 <= x < reps as int ==> #[trigger] models[off + x] == models[off]
        }),
    decreases q,
{
    lemma_h_repetition(s, i, counts, k);
    if q > 0 {
        assert(semi_end(s, spec_segment_start(s, i, 0)) < s.len());
        let e = semi_end(s, i);
        lemma_semi_end_bounds(s, i);
        let reps0 = spec_repetition(s, i).0;
        let models = spec_h_components(s, i, counts, k)->Ok_0;
        let tail = spec_h_components(s, e + 1, counts, k + reps0 as int)->Ok_0;
        assert forall|t: int| 0 <= t < q - 1 implies semi_end(
            s,
            #[trigger] spec_segment_start(s, e + 1, t),
        ) < s.len() by {
            assert(spec_segment_start(s, i, t + 1) == spec_segment_start(s, e + 1, t));
        }
        lemma_h_repetition_at(s, e + 1, counts, k + reps0 as int, q - 1);
        let off1 = spec_counts_consumed(s, e + 1, q - 1);
        assert(models.skip(reps0 as int) == tail);
        assert forall|y: int| 0 <= y < tail.len() implies models[reps0 as int + y] == tail[y] by {
            assert(models.skip(reps0 as int)[y] == models[reps0 as int + y]);
        }
        assert(spec_segment_start(s, i, q) == spec_segment_start(s, e + 1, q - 1));
        assert(spec_counts_consumed(s, i, q) == reps0 as int + off1);
        let start_q = spec_segment_start(s, e + 1, q - 1);
        let repsq = spec_repetition(s, start_q).0;
        assert forall|x: int| 0 <= x < repsq as int implies #[trigger] models[reps0 as int + off1
            + x] == models[reps0 as int + off1] by {
            assert(models[reps0 as int + off1 + x] == tail[off1 + x]);
            assert(models[reps0 as int + off1] == tail[off1]);
        }
    }
}

/// A decoded hydrogen layer agrees with its models, one component per
/// mixture component, in order.
pub open spec fn h_layer_matches(
    l: HydrogensSubLayer,
    models: Seq<(Seq<u8>, Seq<SpecMobileGroup>)>,
) -> bool {
    &&& l.components@.len() == models.len()
    &&& forall|idx: int|
        0 <= idx < models.len() ==> component_matches(#[trigger] l.components@[idx], models[idx])
}

/// The parsed hydrogen sublayer: one [`HydrogenComponent`] per mixture
/// component, in the same order as the formula's subformulas.
#[derive(Debug, PartialEq, Eq)]
pub struct HydrogensSubLayer {
    /// Per-component hydrogen data.
    pub components: Vec<HydrogenComponent>,
}

impl HydrogensSubLayer {
    /// Decodes a whole hydrogen layer text (with its `h` prefix) against
    /// the subformula counts of the molecular formula.
    pub fn parse_with_counts(input: &Vec<char>, counts: &Vec<usize>) -> (r: Result<
        HydrogensSubLayer,
        Error,
    >)
        ensures
            match spec_h_layer(input@, counts@) {
                Ok(models) => r matches Ok(l) && l.components@.len() == models.len() && forall|
                    idx: int,
                |
                    0 <= idx < models.len() ==> component_matches(
                        #[trigger] l.components@[idx],
                        models[idx],
                    ),
                Err(e) => r == Err::<HydrogensSubLayer, _>(e),
            },
            r matches Ok(l) ==> l.components@.len() == counts@.len() && forall|idx: int|
                0 <= idx < l.components@.len() ==> (#[trigger] l.components@[idx]).fixed_h@.len()
                    == counts@[idx] && groups_bounded(
                    groups_view(l.components@[idx].mobile_groups@),
                    counts@[idx],
                ),
    {
        if input.len() == 0 {
            return Err(Error::WrongPrefix);
        }
        let c0 = input[0];
        if c0 != 'h' {
            return Err(Error::WrongPrefix);
        }
        match parse_h_components(input, 1, counts, 0) {
            Ok(components) => Ok(HydrogensSubLayer { components }),
            Err(e) => Err(e),
        }
    }

    /// Decodes a whole hydrogen layer text (with its `h` prefix) in the
    /// context of its parsed molecular formula, whose subformula counts
    /// every atom index is validated against.
    pub fn from_str_with_context(input: &str, context: &ChemicalFormula) -> (r: Result<
        HydrogensSubLayer,
        Error,
    >)
        ensures
            match spec_h_layer(input@, subformula_counts(*context)) {
                Ok(models) => r matches Ok(l) && l.components@.len() == models.len() && forall|
                    idx: int,
                |
                    0 <= idx < models.len() ==> component_matches(
                        #[trigger] l.components@[idx],
                        models[idx],
                    ),
                Err(e) => r == Err::<HydrogensSubLayer, _>(e),
            },
            r matches Ok(l) ==> l.components@.len() == subformula_counts(*context).len()
                && forall|idx: int|
                0 <= idx < l.components@.len() ==> (#[trigger] l.components@[idx]).fixed_h@.len()
                    == subformula_counts(*context)[idx] && groups_bounded(
                    groups_view(l.components@[idx].mobile_groups@),
                    subformula_counts(*context)[idx],
                ),
    {
        let chars = chars_of(input);
        let counts = subformula_non_hydrogen_counts(context);
        HydrogensSubLayer::parse_with_counts(&chars, &counts)
    }
}

} // verus!

