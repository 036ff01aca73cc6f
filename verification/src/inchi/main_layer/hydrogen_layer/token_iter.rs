//! Component-level parser for the hydrogen layer.
//!
//! One de-prefixed component text is folded, token by token, into a
//! per-atom fixed-hydrogen array and a list of mobile hydrogen groups.
//! Outside a mobile group, indices and ranges accumulate in a pending
//! buffer that the next `H` token assigns and clears; inside a group,
//! indices accumulate until the closing parenthesis emits the group.  End
//! of input with an open group, or with atoms still pending, fails.

use vstd::prelude::*;

use crate::errors::HydrogenLayerTokenError;
use super::sub_tokens::{
    lemma_h_sub_token_advances, spec_h_sub_token, HydogenLayerSubTokens,
    HydrogenLayerSubTokenIter,
};
use super::{groups_bounded, groups_view, HydrogenComponent, MobileHydrogenGroup, SpecMobileGroup};

verus! {

/// What validating a 1-based atom index against the component's atom
/// count yields: the 0-based index, or the error.
pub open spec fn spec_validate_atom_index(idx: u16, num_atoms: usize) -> Result<
    int,
    HydrogenLayerTokenError,
> {
    if idx < 1 {
        Err(HydrogenLayerTokenError::ZeroAtomIndex)
    } else if idx - 1 >= num_atoms {
        Err(HydrogenLayerTokenError::AtomIndexOutOfBounds { index: idx, num_atoms })
    } else {
        Ok(idx - 1)
    }
}

/// Validates a 1-based atom index and converts it to 0-based, checking
/// both for zero (InChI indices start at 1) and for exceeding the
/// component's non-hydrogen atom count.
pub fn validate_atom_index(idx: u16, num_atoms: usize) -> (r: Result<
    usize,
    HydrogenLayerTokenError,
>)
    ensures
        match spec_validate_atom_index(idx, num_atoms) {
            Ok(z) => r matches Ok(u) && u as int == z,
            Err(e) => r == Err::<usize, _>(e),
        },
{
    if idx < 1 {
        return Err(HydrogenLayerTokenError::ZeroAtomIndex);
    }
    let zero_based = (idx - 1) as usize;
    if zero_based >= num_atoms {
        return Err(HydrogenLayerTokenError::AtomIndexOutOfBounds { index: idx, num_atoms });
    }
    Ok(zero_based)
}

/// The state of the component fold: the arrays built so far, the pending
/// atom buffer, and the open mobile group, if any.
pub struct HydrogenParseState {
    /// Per-atom fixed hydrogen counts built so far.
    pub fixed_h: Seq<u8>,
    /// Mobile groups completed so far.
    pub mobile_groups: Seq<SpecMobileGroup>,
    /// Pending 1-based atom indices awaiting their `H` token.
    pub atom_buf: Seq<u16>,
    /// Whether a mobile group is open.
    pub in_mobile: bool,
    /// The open group's hydrogen count.
    pub mobile_count: u8,
    /// The open group's charge flag.
    pub mobile_charged: bool,
    /// The open group's 1-based candidate atoms so far.
    pub mobile_atoms: Seq<u16>,
}

/// The fold state at the start of a component: all hydrogen counts zero,
/// nothing pending, no group open.
pub open spec fn spec_h_init(num_atoms: usize) -> HydrogenParseState {
    HydrogenParseState {
        fixed_h: Seq::new(num_atoms as nat, |i: int| 0u8),
        mobile_groups: Seq::empty(),
        atom_buf: Seq::empty(),
        in_mobile: false,
        mobile_count: 0,
        mobile_charged: false,
        mobile_atoms: Seq::empty(),
    }
}

/// What assigning `count` fixed hydrogens to the pending atoms
/// `buf[k ..]` yields: each index validated and converted to 0-based, the
/// array updated in order.
pub open spec fn spec_assign(
    fh: Seq<u8>,
    buf: Seq<u16>,
    k: int,
    count: u8,
    num_atoms: usize,
) -> Result<Seq<u8>, HydrogenLayerTokenError>
    decreases buf.len() - k,
{
    if k < 0 || k >= buf.len() {
        Ok(fh)
    } else {
        match spec_validate_atom_index(buf[k], num_atoms) {
            Err(e) => Err(e),
            Ok(z) => spec_assign(fh.update(z, count), buf, k + 1, count, num_atoms),
        }
    }
}

/// What one token does to the fold state, or the error it raises.
pub open spec fn spec_h_step(
    st: HydrogenParseState,
    tok: HydogenLayerSubTokens,
    num_atoms: usize,
) -> Result<HydrogenParseState, HydrogenLayerTokenError> {
    if st.in_mobile {
        match tok {
            HydogenLayerSubTokens::Comma => Ok(st),
            HydogenLayerSubTokens::Index(n) => match spec_validate_atom_index(n, num_atoms) {
                Err(e) => Err(e),
                Ok(z) => Ok(
                    HydrogenParseState { mobile_atoms: st.mobile_atoms.push(n), ..st },
                ),
            },
            HydogenLayerSubTokens::CloseParenthesis => Ok(
                HydrogenParseState {
                    mobile_groups: st.mobile_groups.push(
                        SpecMobileGroup {
                            count: st.mobile_count,
                            charged: st.mobile_charged,
                            atoms: st.mobile_atoms.map_values(|a: u16| (a - 1) as u16),
                        },
                    ),
                    mobile_atoms: Seq::empty(),
                    in_mobile: false,
                    ..st
                },
            ),
            HydogenLayerSubTokens::Range(p) => Err(
                HydrogenLayerTokenError::InvalidCharacter('-'),
            ),
            HydogenLayerSubTokens::H(c) => Err(HydrogenLayerTokenError::InvalidCharacter('H')),
            HydogenLayerSubTokens::SharedHydrogens { count, charged } => Err(
                HydrogenLayerTokenError::InvalidCharacter('('),
            ),
            HydogenLayerSubTokens::Asterisk(c) => Err(
                HydrogenLayerTokenError::InvalidCharacter('*'),
            ),
        }
    } else {
        match tok {
            HydogenLayerSubTokens::Comma => Ok(st),
            HydogenLayerSubTokens::Index(n) => Ok(
                HydrogenParseState { atom_buf: st.atom_buf.push(n), ..st },
            ),
            HydogenLayerSubTokens::Range(p) => {
                let (a, b) = p;
                if a > b {
                    Err(HydrogenLayerTokenError::InvalidRange(a, b))
                } else {
                    match spec_validate_atom_index(a, num_atoms) {
                        Err(e) => Err(e),
                        Ok(za) => match spec_validate_atom_index(b, num_atoms) {
                            Err(e) => Err(e),
                            Ok(zb) => Ok(
                                HydrogenParseState {
                                    atom_buf: st.atom_buf + Seq::new(
                                        (b - a + 1) as nat,
                                        |t: int| (a + t) as u16,
                                    ),
                                    ..st
                                },
                            ),
                        },
                    }
                }
            },
            HydogenLayerSubTokens::H(count) => match spec_assign(
                st.fixed_h,
                st.atom_buf,
                0,
                count,
                num_atoms,
            ) {
                Err(e) => Err(e),
                Ok(fh) => Ok(
                    HydrogenParseState { fixed_h: fh, atom_buf: Seq::empty(), ..st },
                ),
            },
            HydogenLayerSubTokens::SharedHydrogens { count, charged } => Ok(
                HydrogenParseState {
                    in_mobile: true,
                    mobile_count: count,
                    mobile_charged: charged,
                    mobile_atoms: Seq::empty(),
                    ..st
                },
            ),
            HydogenLayerSubTokens::CloseParenthesis => Err(
                HydrogenLayerTokenError::InvalidCharacter(')'),
            ),
            HydogenLayerSubTokens::Asterisk(c) => Err(
                HydrogenLayerTokenError::InvalidCharacter('*'),
            ),
        }
    }
}

/// What folding the component text from position `i` in state `st`
/// yields: the finished per-atom counts and mobile groups, or the first
/// error.  End of input fails while a group is open, or while atoms are
/// still pending without a terminating `H`.
pub open spec fn spec_h_component_from(
    s: Seq<char>,
    i: int,
    st: HydrogenParseState,
    num_atoms: usize,
) -> Result<(Seq<u8>, Seq<SpecMobileGroup>), HydrogenLayerTokenError>
    decreases s.len() - i,
{
    match spec_h_sub_token(s, i, st.in_mobile) {
        None => if st.in_mobile {
            Err(
                HydrogenLayerTokenError::UnexpectedEndOfInput(
                    HydogenLayerSubTokens::CloseParenthesis,
                ),
            )
        } else if st.atom_buf.len() > 0 {
            Err(
                HydrogenLayerTokenError::UnexpectedEndOfInput(
                    HydogenLayerSubTokens::Index(st.atom_buf.last()),
                ),
            )
        } else {
            Ok((st.fixed_h, st.mobile_groups))
        },
        Some(Err(e)) => Err(e),
        Some(Ok((t, j))) => if !(i < j <= s.len()) {
            // Cannot happen: a sub-token consumes at least one character.
            Err(HydrogenLayerTokenError::InvalidCharacter(' '))
        } else {
            match spec_h_step(st, t, num_atoms) {
                Err(e) => Err(e),
                Ok(st2) => spec_h_component_from(s, j, st2, num_atoms),
            }
        },
    }
}

/// What folding one whole de-prefixed component text yields.
pub open spec fn spec_h_component(s: Seq<char>, num_atoms: usize) -> Result<
    (Seq<u8>, Seq<SpecMobileGroup>),
    HydrogenLayerTokenError,
> {
    spec_h_component_from(s, 0, spec_h_init(num_atoms), num_atoms)
}

/// Parses one component text (after stripping any `n*` prefix) into a
/// [`HydrogenComponent`], converting atom indices from 1-based to 0-based
/// and validating each against `num_atoms`, the subformula's non-hydrogen
/// atom count.
pub fn parse_component(input: Vec<char>, num_atoms: usize) -> (r: Result<
    HydrogenComponent,
    HydrogenLayerTokenError,
>)
    ensures
        match spec_h_component(input@, num_atoms) {
            Ok((fh, gs)) => r matches Ok(c) && c.fixed_h@ == fh && groups_view(c.mobile_groups@)
                == gs,
            Err(e) => r == Err::<HydrogenComponent, _>(e),
        },
        r matches Ok(c) ==> c.fixed_h@.len() == num_atoms && groups_bounded(
            groups_view(c.mobile_groups@),
            num_atoms,
        ),
{
    let ghost s = input@;
    let mut iter = HydrogenLayerSubTokenIter::new(input);
    let mut fixed_h: Vec<u8> = vec![0u8; num_atoms];
    let mut mobile_groups: Vec<MobileHydrogenGroup> = Vec::new();
    let mut atom_buf: Vec<u16> = Vec::new();
    let mut in_mobile: bool = false;
    let mut mobile_count: u8 = 0;
    let mut mobile_charged: bool = false;
    let mut mobile_atoms: Vec<u16> = Vec::new();
    proof {
        assert(fixed_h@ =~= spec_h_init(num_atoms).fixed_h);
        assert(groups_view(mobile_groups@) =~= Seq::<SpecMobileGroup>::empty());
        assert(HydrogenParseState {
            fixed_h: fixed_h@,
            mobile_groups: groups_view(mobile_groups@),
            atom_buf: atom_buf@,
            in_mobile: in_mobile,
            mobile_count: mobile_count,
            mobile_charged: mobile_charged,
            mobile_atoms: mobile_atoms@,
        } == spec_h_init(num_atoms));
    }
    #[verifier::loop_isolation(false)]
    loop
        invariant
            iter.wf(),
            iter.chars@ == s,
            iter.in_parenthesis == in_mobile,
            fixed_h@.len() == num_atoms,
            groups_bounded(groups_view(mobile_groups@), num_atoms),
            forall|t: int|
                0 <= t < mobile_atoms@.len() ==> 1 <= (#[trigger] mobile_atoms@[t])
                    && mobile_atoms@[t] - 1 < num_atoms,
            spec_h_component_from(
                s,
                iter.pos as int,
                HydrogenParseState {
                    fixed_h: fixed_h@,
                    mobile_groups: groups_view(mobile_groups@),
                    atom_buf: atom_buf@,
                    in_mobile: in_mobile,
                    mobile_count: mobile_count,
                    mobile_charged: mobile_charged,
                    mobile_atoms: mobile_atoms@,
                },
                num_atoms,
            ) == spec_h_component(s, num_atoms),
        decreases s.len() - iter.pos,
    {
        let ghost st_pre = HydrogenParseState {
            fixed_h: fixed_h@,
            mobile_groups: groups_view(mobile_groups@),
            atom_buf: atom_buf@,
            in_mobile: in_mobile,
            mobile_count: mobile_count,
            mobile_charged: mobile_charged,
            mobile_atoms: mobile_atoms@,
        };
        proof {
            lemma_h_sub_token_advances(s, iter.pos as int, in_mobile);
        }
        let tok = match iter.next() {
            None => {
                if in_mobile {
                    return Err(
                        HydrogenLayerTokenError::UnexpectedEndOfInput(
                            HydogenLayerSubTokens::CloseParenthesis,
                        ),
                    );
                }
                if atom_buf.len() > 0 {
                    let last = atom_buf[atom_buf.len() - 1];
                    return Err(
                        HydrogenLayerTokenError::UnexpectedEndOfInput(
                            HydogenLayerSubTokens::Index(last),
                        ),
                    );
                }
                return Ok(HydrogenComponent { fixed_h, mobile_groups });
            },
            Some(Err(e)) => {
                return Err(e);
            },
            Some(Ok(t)) => t,
        };
        if in_mobile {
            match tok {
                HydogenLayerSubTokens::Comma => {},
                HydogenLayerSubTokens::Index(n) => {
                    match validate_atom_index(n, num_atoms) {
                        Ok(_) => {
                            mobile_atoms.push(n);
                            proof {
                                assert(mobile_atoms@ =~= st_pre.mobile_atoms.push(n));
                            }
                        },
                        Err(e) => {
                            return Err(e);
                        },
                    }
                },
                HydogenLayerSubTokens::CloseParenthesis => {
                    let mut atoms: Vec<u16> = Vec::new();
                    let mut t: usize = 0;
                    #[verifier::loop_isolation(false)]
                    while t < mobile_atoms.len()
                        invariant
                            t <= mobile_atoms@.len(),
                            atoms@ == mobile_atoms@.subrange(0, t as int).map_values(
                                |a: u16| (a - 1) as u16,
                            ),
                        decreases mobile_atoms@.len() - t,
                    {
                        atoms.push(mobile_atoms[t] - 1);
                        t = t + 1;
                        proof {
                            assert(atoms@ =~= mobile_atoms@.subrange(0, t as int).map_values(
                                |a: u16| (a - 1) as u16,
                            ));
                        }
                    }
                    proof {
                        assert(mobile_atoms@.subrange(0, mobile_atoms@.len() as int)
                            =~= mobile_atoms@);
                    }
                    let group = MobileHydrogenGroup {
                        count: mobile_count,
                        charged: mobile_charged,
                        atoms,
                    };
                    let ghost gv = group@;
                    mobile_groups.push(group);
                    mobile_atoms = Vec::new();
                    in_mobile = false;
                    proof {
                        assert(groups_view(mobile_groups@) =~= st_pre.mobile_groups.push(gv));
                        assert(mobile_atoms@ =~= Seq::<u16>::empty());
                    }
                },
                HydogenLayerSubTokens::Range(p) => {
                    return Err(HydrogenLayerTokenError::InvalidCharacter('-'));
                },
                HydogenLayerSubTokens::H(c) => {
                    return Err(HydrogenLayerTokenError::InvalidCharacter('H'));
                },
                HydogenLayerSubTokens::SharedHydrogens { count, charged } => {
                    return Err(HydrogenLayerTokenError::InvalidCharacter('('));
                },
                HydogenLayerSubTokens::Asterisk(c) => {
                    return Err(HydrogenLayerTokenError::InvalidCharacter('*'));
                },
            }
        } else {
            match tok {
                HydogenLayerSubTokens::Comma => {},
                HydogenLayerSubTokens::Index(n) => {
                    atom_buf.push(n);
                    proof {
                        assert(atom_buf@ =~= st_pre.atom_buf.push(n));
                    }
                },
                HydogenLayerSubTokens::Range(p) => {
                    let (a, b) = p;
                    if a > b {
                        return Err(HydrogenLayerTokenError::InvalidRange(a, b));
                    }
                    match validate_atom_index(a, num_atoms) {
                        Ok(_) => {},
                        Err(e) => {
                            return Err(e);
                        },
                    }
                    match validate_atom_index(b, num_atoms) {
                        Ok(_) => {},
                        Err(e) => {
                            return Err(e);
                        },
                    }
                    let ghost buf0 = atom_buf@;
                    let mut x: u16 = a;
                    #[verifier::loop_isolation(false)]
                    while x < b
                        invariant
                            a <= x <= b,
                            atom_buf@ == buf0 + Seq::new((x - a) as nat, |t: int| (a + t) as u16),
                        decreases b - x,
                    {
                        atom_buf.push(x);
                        x = x + 1;
                        proof {
                            assert(atom_buf@ =~= buf0 + Seq::new(
                                (x - a) as nat,
                                |t: int| (a + t) as u16,
                            ));
                        }
                    }
                    atom_buf.push(b);
                    proof {
                        assert(atom_buf@ =~= buf0 + Seq::new(
                            (b - a + 1) as nat,
                            |t: int| (a + t) as u16,
                        ));
                    }
                },
                HydogenLayerSubTokens::H(count) => {
                    let ghost fh0 = fixed_h@;
                    let ghost buf = atom_buf@;
                    let mut t: usize = 0;
                    #[verifier::loop_isolation(false)]
                    while t < atom_buf.len()
                        invariant
                            t <= atom_buf@.len(),
                            fixed_h@.len() == num_atoms,
                            spec_assign(fh0, buf, 0, count, num_atoms) == spec_assign(
                                fixed_h@,
                                buf,
                                t as int,
                                count,
                                num_atoms,
                            ),
                        decreases atom_buf@.len() - t,
                    {
                        match validate_atom_index(atom_buf[t], num_atoms) {
                            Ok(z) => {
                                fixed_h[z] = count;
                                t = t + 1;
                            },
                            Err(e) => {
                                return Err(e);
                            },
                        }
                    }
                    atom_buf = Vec::new();
                    proof {
                        assert(atom_buf@ =~= Seq::<u16>::empty());
                    }
                },
                HydogenLayerSubTokens::SharedHydrogens { count, charged } => {
                    in_mobile = true;
                    mobile_count = count;
                    mobile_charged = charged;
                    mobile_atoms = Vec::new();
                    proof {
                        assert(mobile_atoms@ =~= Seq::<u16>::empty());
                    }
                },
                HydogenLayerSubTokens::CloseParenthesis => {
                    return Err(HydrogenLayerTokenError::InvalidCharacter(')'));
                },
                HydogenLayerSubTokens::Asterisk(c) => {
                    return Err(HydrogenLayerTokenError::InvalidCharacter('*'));
                },
            }
        }
        proof {
            let st_now = HydrogenParseState {
                fixed_h: fixed_h@,
                mobile_groups: groups_view(mobile_groups@),
                atom_buf: atom_buf@,
                in_mobile: in_mobile,
                mobile_count: mobile_count,
                mobile_charged: mobile_charged,
                mobile_atoms: mobile_atoms@,
            };
            assert(spec_h_step(st_pre, tok, num_atoms) == Ok::<_, HydrogenLayerTokenError>(
                st_now,
            ));
        }
    }
}

} // verus!
