//! The InChI structure and its layers.

pub mod charge_layer;
pub mod fixed_hydrogen;
pub mod isotope_layer;
pub mod main_layer;
pub mod proton_layer;
pub mod reconnected_layer;
pub mod stereochemistry_layer;

use vstd::prelude::*;

use crate::constants::{is_known_layer_prefix, spec_known_layer_prefix, INCHI_PREFIX};
use crate::errors::Error;
use crate::text::{char_end, chars_of, find_char, has_prefix_at, is_char_prefix,
    lemma_char_end_bounds};
use crate::version::{StandardVersion1_07_4, Version};
use charge_layer::ChargeSubLayer;
use fixed_hydrogen::FixedHydrogenLayer;
use isotope_layer::IsotopeLayer;
use crate::formula::{formula_counts_of, formula_parses};
use main_layer::{
    spec_formula_segment, spec_layers_error, spec_main_layer_end, spec_main_layer_ok, MainLayer,
};
use reconnected_layer::ReconnectedLayer;
use stereochemistry_layer::StereochemistryLayer;

verus! {

/// A decoded InChI: its main layer, and placeholders for the layers that
/// are recognized but not decoded yet.
#[derive(Debug, PartialEq, Eq)]
pub struct InChI<V: Version = StandardVersion1_07_4> {
    /// The main layer: formula, connections, hydrogens.
    pub main_layer: MainLayer,
    /// The charge sublayer (`q`), once decoded.
    pub charge: Option<ChargeSubLayer>,
    /// The stereochemistry layer, once decoded.
    pub stereochemistry: Option<StereochemistryLayer>,
    /// The isotope layer (`i`), once decoded.
    pub isotope: Option<IsotopeLayer>,
    /// The fixed hydrogen layer (`f`), once decoded.
    pub fixed_hydrogen: Option<FixedHydrogenLayer>,
    /// The reconnected layer (`r`), once decoded.
    pub reconnected: Option<ReconnectedLayer>,
    /// The InChI version the text was parsed as.
    pub _version: core::marker::PhantomData<V>,
}

/// What validating the `/`-separated segments that follow the main layer
/// yields: every segment must begin with a known layer prefix; an empty
/// segment is reported as a slash.
pub open spec fn spec_validate_remaining(s: Seq<char>, j: int) -> Result<(), Error>
    decreases s.len() - j,
    via spec_validate_remaining_dec
{
    if j < 0 || j >= s.len() {
        Err(Error::UnrecognizedLayerPrefix('/'))
    } else if s[j] == '/' {
        Err(Error::UnrecognizedLayerPrefix('/'))
    } else if !spec_known_layer_prefix(s[j]) {
        Err(Error::UnrecognizedLayerPrefix(s[j]))
    } else {
        let e = char_end(s, j, '/');
        if e >= s.len() {
            Ok(())
        } else {
            spec_validate_remaining(s, e + 1)
        }
    }
}

#[via_fn]
proof fn spec_validate_remaining_dec(s: Seq<char>, j: int) {
    if 0 <= j <= s.len() {
        lemma_char_end_bounds(s, j, '/');
    }
}

/// Checks that every remaining `/`-separated segment starts with a known
/// layer prefix.
fn validate_remaining(chars: &Vec<char>, j: usize) -> (r: Result<(), Error>)
    requires
        j <= chars@.len(),
    ensures
        r == spec_validate_remaining(chars@, j as int),
{
    let mut pos = j;
    #[verifier::loop_isolation(false)]
    loop
        invariant
            j <= pos <= chars@.len(),
            spec_validate_remaining(chars@, j as int) == spec_validate_remaining(
                chars@,
                pos as int,
            ),
        decreases chars@.len() - pos,
    {
        proof {
            lemma_char_end_bounds(chars@, pos as int, '/');
        }
        if pos >= chars.len() {
            return Err(Error::UnrecognizedLayerPrefix('/'));
        }
        let c = chars[pos];
        if c == '/' {
            return Err(Error::UnrecognizedLayerPrefix('/'));
        }
        if !is_known_layer_prefix(c) {
            return Err(Error::UnrecognizedLayerPrefix(c));
        }
        let e = find_char(chars, pos, '/');
        if e >= chars.len() {
            return Ok(());
        }
        pos = e + 1;
    }
}

impl<V: Version> InChI<V> {
    /// Parses a whole InChI string for the version `V`: the `InChI=`
    /// prefix, the version prefix, the main layer, and a check that every
    /// later layer carries a known prefix.  Succeeds exactly when all of
    /// these accept; each failing stage's error is fixed by the text (a
    /// formula failure up to the variant, as the formula parser chooses
    /// the detail).
    pub fn parse(s: &str) -> (r: Result<InChI<V>, Error>)
        ensures
            !has_prefix_at(s@, 0, INCHI_PREFIX@) ==> r == Err::<InChI<V>, _>(
                Error::MissingInchiPrefix,
            ),
            has_prefix_at(s@, 0, INCHI_PREFIX@) && !has_prefix_at(
                s@,
                INCHI_PREFIX@.len() as int,
                V::spec_version_prefix(),
            ) ==> r == Err::<InChI<V>, _>(Error::MissingVersionPrefix),
            ({
                let p2 = INCHI_PREFIX@.len() + V::spec_version_prefix().len();
                has_prefix_at(s@, 0, INCHI_PREFIX@) && has_prefix_at(
                    s@,
                    INCHI_PREFIX@.len() as int,
                    V::spec_version_prefix(),
                ) && !(p2 < s@.len() && s@[p2 as int] == '/') ==> r == Err::<InChI<V>, _>(
                    Error::MissingForwardSlash("Missing chemical formula forward slash"),
                )
            }),
            ({
                let p2 = INCHI_PREFIX@.len() + V::spec_version_prefix().len();
                has_prefix_at(s@, 0, INCHI_PREFIX@) && has_prefix_at(
                    s@,
                    INCHI_PREFIX@.len() as int,
                    V::spec_version_prefix(),
                ) && p2 < s@.len() && s@[p2 as int] == '/' && p2 + 1 < s@.len() && s@[p2 as int + 1]
                    == 'p' ==> r == Err::<InChI<V>, _>(
                    Error::UnimplementedFeature("Proton-only InChIs not yet supported"),
                )
            }),
            ({
                let p1 = INCHI_PREFIX@.len() as int;
                let p2 = p1 + V::spec_version_prefix().len();
                let p3 = p2 + 1;
                let fseg = spec_formula_segment(s@, p3);
                (has_prefix_at(s@, 0, INCHI_PREFIX@) && has_prefix_at(
                    s@,
                    p1,
                    V::spec_version_prefix(),
                ) && p2 < s@.len() && s@[p2] == '/' && !(p3 < s@.len() && s@[p3] == 'p')) ==> {
                    &&& !formula_parses(fseg) ==> (r matches Err(e)
                        && e is MolecularFormulaParserError)
                    &&& formula_parses(fseg) ==> match spec_layers_error(
                        s@,
                        p3,
                        formula_counts_of(fseg),
                    ) {
                        Some(e) => r == Err::<InChI<V>, Error>(e),
                        None => {
                            let j = spec_main_layer_end(s@, p3);
                            if j == s@.len() {
                                r is Ok
                            } else {
                                match spec_validate_remaining(s@, j) {
                                    Ok(u) => r is Ok,
                                    Err(e) => r == Err::<InChI<V>, Error>(e),
                                }
                            }
                        },
                    }
                }
            }),
            r matches Ok(inchi) ==> ({
                let p3 = INCHI_PREFIX@.len() + V::spec_version_prefix().len() + 1;
                &&& exists|j: int|
                    #[trigger] spec_main_layer_ok(s@, p3 as int, inchi.main_layer, j) && (j
                        == s@.len() || spec_validate_remaining(s@, j) is Ok)
                &&& inchi.charge is None
                &&& inchi.stereochemistry is None
                &&& inchi.isotope is None
                &&& inchi.fixed_hydrogen is None
                &&& inchi.reconnected is None
            }),
    {
        let chars = chars_of(s);
        let ip = chars_of(INCHI_PREFIX);
        if !is_char_prefix(&chars, 0, &ip) {
            return Err(Error::MissingInchiPrefix);
        }
        let p1 = ip.len();
        let vp = chars_of(V::version_prefix());
        if !is_char_prefix(&chars, p1, &vp) {
            return Err(Error::MissingVersionPrefix);
        }
        let total = chars.len();
        proof {
            assert(p1 + vp@.len() <= total);
        }
        let p2 = p1 + vp.len();
        if !(p2 < chars.len() && chars[p2] == '/') {
            return Err(Error::MissingForwardSlash("Missing chemical formula forward slash"));
        }
        let p3 = p2 + 1;
        if p3 < chars.len() && chars[p3] == 'p' {
            return Err(Error::UnimplementedFeature("Proton-only InChIs not yet supported"));
        }
        let (main_layer, j) = match MainLayer::consume_str(&chars, p3) {
            Ok(p) => p,
            Err(e) => {
                return Err(e);
            },
        };
        if j < chars.len() {
            match validate_remaining(&chars, j) {
                Ok(_) => {},
                Err(e) => {
                    return Err(e);
                },
            }
        }
        proof {
            let p3s = INCHI_PREFIX@.len() + V::spec_version_prefix().len() + 1;
            assert(p3 as int == p3s);
            assert(spec_main_layer_ok(s@, p3s as int, main_layer, j as int));
            assert(j as int == s@.len() || spec_validate_remaining(s@, j as int) is Ok);
            assert(exists|jx: int|
                #[trigger] spec_main_layer_ok(s@, p3s as int, main_layer, jx) && (jx == s@.len()
                    || spec_validate_remaining(s@, jx) is Ok));
        }
        Ok(
            InChI {
                main_layer,
                charge: None,
                stereochemistry: None,
                isotope: None,
                fixed_hydrogen: None,
                reconnected: None,
                _version: core::marker::PhantomData,
            },
        )
    }
}

impl<V: Version> core::str::FromStr for InChI<V> {
    type Err = Error;

    fn from_str(s: &str) -> Result<Self, Error> {
        InChI::<V>::parse(s)
    }
}

} // verus!
