//! The main layer of an InChI: formula, atom connections, hydrogens.

pub mod atom_connection_layer;
pub mod hydrogen_layer;

use vstd::prelude::*;

use crate::errors::Error;
use crate::formula::{
    formula_counts_of, formula_from_chars, formula_parses, subformula_counts,
    subformula_non_hydrogen_counts, ChemicalFormula,
};
use crate::segments::sub_chars;
use crate::text::{char_end, find_char, lemma_char_end_bounds};
use atom_connection_layer::{conn_layer_matches, spec_conn_layer, AtomConnectionLayer};
use hydrogen_layer::{h_layer_matches, spec_h_layer, HydrogensSubLayer};

verus! {

/// The main layer of an InChI: the molecular formula, and the decoded
/// atom connection and hydrogen layers, where present.
#[derive(Debug, PartialEq, Eq)]
pub struct MainLayer {
    /// The molecular formula, parsed by the formula crate.
    pub chemical_formula: ChemicalFormula,
    /// The decoded atom connection layer, when a `c` segment is present.
    pub atom_connections: Option<AtomConnectionLayer>,
    /// The decoded hydrogen layer, when an `h` segment is present.
    pub hydrogens: Option<HydrogensSubLayer>,
}

/// The position after the `/`-terminated segment that starts at `i`: one
/// past the slash, or the end of the text.
pub open spec fn spec_after_segment(s: Seq<char>, i: int) -> int {
    let e = char_end(s, i, '/');
    if e < s.len() {
        e + 1
    } else {
        s.len() as int
    }
}

/// The molecular formula segment of a main layer that starts at `start`:
/// the text up to the first `/`, or to the end.
pub open spec fn spec_formula_segment(s: Seq<char>, start: int) -> Seq<char> {
    s.subrange(start, char_end(s, start, '/'))
}

/// The first error among the `c` and `h` segments that are present,
/// decoded against the formula's subformula counts, or `None` when both
/// decode (or are absent).
pub open spec fn spec_layers_error(s: Seq<char>, start: int, counts: Seq<usize>) -> Option<
    Error,
> {
    let rem0 = spec_after_segment(s, start);
    let conn_present = rem0 < s.len() && s[rem0] == 'c';
    let ce = char_end(s, rem0, '/');
    if conn_present && spec_conn_layer(s.subrange(rem0, ce), counts) is Err {
        Some(spec_conn_layer(s.subrange(rem0, ce), counts)->Err_0)
    } else {
        let rem1 = if conn_present {
            spec_after_segment(s, rem0)
        } else {
            rem0
        };
        let hyd_present = rem1 < s.len() && s[rem1] == 'h';
        let he = char_end(s, rem1, '/');
        if hyd_present && spec_h_layer(s.subrange(rem1, he), counts) is Err {
            Some(spec_h_layer(s.subrange(rem1, he), counts)->Err_0)
        } else {
            None
        }
    }
}

/// The position after the last segment a main layer at `start` consumes:
/// past the formula segment, then past the `c` and `h` segments where
/// present.
pub open spec fn spec_main_layer_end(s: Seq<char>, start: int) -> int {
    let rem0 = spec_after_segment(s, start);
    let conn_present = rem0 < s.len() && s[rem0] == 'c';
    let rem1 = if conn_present {
        spec_after_segment(s, rem0)
    } else {
        rem0
    };
    let hyd_present = rem1 < s.len() && s[rem1] == 'h';
    if hyd_present {
        spec_after_segment(s, rem1)
    } else {
        rem1
    }
}

/// What an accepted main layer, read from position `start`, holds: the
/// connection and hydrogen segments decoded exactly against the
/// formula's subformula counts, and the cursor left after the last
/// segment consumed.
pub open spec fn spec_main_layer_ok(s: Seq<char>, start: int, ml: MainLayer, j: int) -> bool {
    let counts = subformula_counts(ml.chemical_formula);
    let grounded = counts == formula_counts_of(spec_formula_segment(s, start));
    let rem0 = spec_after_segment(s, start);
    let conn_present = rem0 < s.len() && s[rem0] == 'c';
    let ce = char_end(s, rem0, '/');
    let rem1 = if conn_present {
        spec_after_segment(s, rem0)
    } else {
        rem0
    };
    let hyd_present = rem1 < s.len() && s[rem1] == 'h';
    let he = char_end(s, rem1, '/');
    let rem2 = if hyd_present {
        spec_after_segment(s, rem1)
    } else {
        rem1
    };
    &&& (match ml.atom_connections {
        Some(l) => conn_present && (spec_conn_layer(s.subrange(rem0, ce), counts) matches Ok(
            models,
        ) && conn_layer_matches(l, models)),
        None => !conn_present,
    })
    &&& (match ml.hydrogens {
        Some(h) => hyd_present && (spec_h_layer(s.subrange(rem1, he), counts) matches Ok(models)
            && h_layer_matches(h, models)),
        None => !hyd_present,
    })
    &&& grounded
    &&& j == rem2
}

impl MainLayer {
    /// Consumes the main layer from position `start` of the character
    /// text: the molecular formula segment first, then the optional
    /// connection (`c`) and hydrogen (`h`) segments, each decoded against
    /// the formula's subformula counts.  Returns the parsed layer and the
    /// position of the remaining text.  Succeeds exactly when the formula
    /// segment parses and every present layer segment decodes; a layer
    /// error propagates unchanged, and a formula error is returned as a
    /// formula parser error.
    pub fn consume_str(chars: &Vec<char>, start: usize) -> (r: Result<(MainLayer, usize), Error>)
        requires
            start <= chars@.len(),
        ensures
            r matches Ok(p) ==> spec_main_layer_ok(chars@, start as int, p.0, p.1 as int) && start
                <= p.1 <= chars@.len() && p.1 as int == spec_main_layer_end(
                chars@,
                start as int,
            ),
            !formula_parses(spec_formula_segment(chars@, start as int)) ==> (r matches Err(e)
                && e is MolecularFormulaParserError),
            formula_parses(spec_formula_segment(chars@, start as int)) ==> match spec_layers_error(
                chars@,
                start as int,
                formula_counts_of(spec_formula_segment(chars@, start as int)),
            ) {
                Some(e) => r == Err::<(MainLayer, usize), Error>(e),
                None => r is Ok,
            },
    {
        proof {
            lemma_char_end_bounds(chars@, start as int, '/');
        }
        let fe = find_char(chars, start, '/');
        let formula_chars = sub_chars(chars, start, fe);
        let chemical_formula = match formula_from_chars(&formula_chars) {
            Ok(f) => f,
            Err(e) => {
                return Err(Error::MolecularFormulaParserError(e));
            },
        };
        let counts = subformula_non_hydrogen_counts(&chemical_formula);
        let rem0 = if fe < chars.len() {
            fe + 1
        } else {
            chars.len()
        };
        let mut pos = rem0;
        let atom_connections = if pos < chars.len() && chars[pos] == 'c' {
            proof {
                lemma_char_end_bounds(chars@, pos as int, '/');
            }
            let ce = find_char(chars, pos, '/');
            let seg = sub_chars(chars, pos, ce);
            let l = match AtomConnectionLayer::parse_with_counts(&seg, &counts) {
                Ok(l) => l,
                Err(e) => {
                    return Err(e);
                },
            };
            pos = if ce < chars.len() {
                ce + 1
            } else {
                chars.len()
            };
            Some(l)
        } else {
            None
        };
        let hydrogens = if pos < chars.len() && chars[pos] == 'h' {
            proof {
                lemma_char_end_bounds(chars@, pos as int, '/');
            }
            let he = find_char(chars, pos, '/');
            let seg = sub_chars(chars, pos, he);
            let l = match HydrogensSubLayer::parse_with_counts(&seg, &counts) {
                Ok(l) => l,
                Err(e) => {
                    return Err(e);
                },
            };
            pos = if he < chars.len() {
                he + 1
            } else {
                chars.len()
            };
            Some(l)
        } else {
            None
        };
        Ok((MainLayer { chemical_formula, atom_connections, hydrogens }, pos))
    }
}

} // verus!
