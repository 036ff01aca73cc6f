//! The trusted boundary to the `molecular_formulas` crate.
//!
//! The molecular formula layer is parsed by that crate; this library only
//! reads, per mixture component, the number of non-hydrogen atoms, which
//! both the connection and the hydrogen decoder validate against.

use vstd::prelude::*;

verus! {

/// Holds the parsed molecular formula layer.
///
/// The value is the `InChIFormula` of `molecular_formulas`; Verus refuses
/// to declare that type directly (its generics carry the outside
/// `CountLike` bound), so it is held opaquely in a struct of this library
/// and read only through the trusted functions below.
#[verifier::external_body]
#[derive(Debug)]
pub struct ChemicalFormula {
    formula: molecular_formulas::InChIFormula,
}

impl PartialEq for ChemicalFormula {
    /// Relies on the derived `PartialEq` of `InChIFormula`.
    #[verifier::external_body]
    fn eq(&self, other: &Self) -> bool {
        self.formula == other.formula
    }
}

impl Eq for ChemicalFormula {

}

/// Declares `molecular_formulas::errors::ParserError`, the error type of
/// the formula parser, as an opaque outside type.
#[verifier::external_type_specification]
#[verifier::external_body]
pub struct ExParserError(molecular_formulas::errors::ParserError);

/// The per-component non-hydrogen atom counts that an `InChIFormula`
/// holds, one entry per mixture component in order, repeated components
/// expanded.  Parsing a formula is deterministic, so this is a function of
/// the formula value alone.
pub uninterp spec fn subformula_counts(f: ChemicalFormula) -> Seq<usize>;

/// Whether a formula text is accepted by the formula parser.  Parsing is
/// deterministic, so this is a function of the characters alone.
pub uninterp spec fn formula_parses(s: Seq<char>) -> bool;

/// The per-component non-hydrogen atom counts of an accepted formula
/// text, a function of the characters alone.
pub uninterp spec fn formula_counts_of(s: Seq<char>) -> Seq<usize>;

/// Relies on `InChIFormula::from_str` (the `core::str::FromStr` impl of
/// `molecular_formulas`): parses a molecular formula in InChI notation,
/// rejecting among others formulas that are not Hill sorted.  Whether the
/// text is accepted, and which counts the accepted formula holds, are
/// functions of the text alone, named above.
#[verifier::external_body]
pub fn formula_from_chars(v: &Vec<char>) -> (r: Result<
    ChemicalFormula,
    molecular_formulas::errors::ParserError,
>)
    ensures
        (r is Ok) == formula_parses(v@),
        r matches Ok(f) ==> subformula_counts(f) == formula_counts_of(v@),
{
    let s: String = v.iter().collect();
    match core::str::FromStr::from_str(&s) {
        Ok(formula) => Ok(ChemicalFormula { formula }),
        Err(e) => Err(e),
    }
}

/// Relies on `InChIFormula::subformulas` (one entry per mixture component,
/// repeated components expanded, in order) and on
/// `MolecularFormula::number_of_non_hydrogens` (the number of non-hydrogen
/// atoms of one subformula).
#[verifier::external_body]
pub fn subformula_non_hydrogen_counts(f: &ChemicalFormula) -> (r: Vec<usize>)
    ensures
        r@ == subformula_counts(*f),
{
    f.formula.subformulas().map(|sf| molecular_formulas::MolecularFormula::number_of_non_hydrogens(&sf)).collect()
}

impl core::str::FromStr for ChemicalFormula {
    type Err = molecular_formulas::errors::ParserError;

    fn from_str(s: &str) -> Result<Self, Self::Err> {
        let chars = crate::text::chars_of(s);
        formula_from_chars(&chars)
    }
}

} // verus!
