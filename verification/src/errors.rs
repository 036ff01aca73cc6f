//! Errors that can occur while parsing or handling InChIs.

use vstd::prelude::*;

use crate::inchi::main_layer::atom_connection_layer::connection_layer_token_iter::sub_tokens::ConnectionLayerSubToken;
use crate::inchi::main_layer::hydrogen_layer::sub_tokens::HydogenLayerSubTokens;

verus! {

/// Errors of the shared numeric index lexer.
///
/// Mirrors the failure modes of folding a decimal digit run into a bounded
/// unsigned integer: a run may not start with `0` (indices are 1-based and
/// counts carry no leading zeros), and it may not exceed the index width.
#[derive(Debug, Clone, Copy, PartialEq, Eq)]
pub enum NumericError {
    /// Leading zero not allowed in indices or counts.
    LeadingZero,
    /// The digit run exceeds the configured index width.
    PositiveOverflow,
}

/// Errors that can occur while tokenizing the atom connection layer.
#[derive(Debug, Clone, Copy, PartialEq, Eq)]
pub enum AtomConnectionTokenError {
    /// Numeric error while lexing an atom index.
    NumericError(NumericError),
    /// Invalid character encountered.
    InvalidCharacter(char),
    /// Illegal consecutive sub-tokens: punctuation must be followed by an
    /// atom index.
    IllegalConsecutiveSubTokens {
        /// The previous token.
        previous: ConnectionLayerSubToken,
        /// The illegal token.
        illegal: ConnectionLayerSubToken,
    },
    /// Unexpected end of input after the given token.
    UnexpectedEndOfInput(ConnectionLayerSubToken),
    /// A closing bracket appeared before an opening one.
    ClosingBracketBeforeOpeningBracket,
    /// A comma appeared before any edge was added.
    CommaBeforeAnyEdge,
    /// Illegal starting token.
    IllegalStartingToken(ConnectionLayerSubToken),
    /// Self loop detected (the carried index is 1-based, as written).
    SelfLoopDetected(u16),
    /// Atom index is zero; InChI uses 1-based indices.
    ZeroAtomIndex,
    /// An atom index exceeds the component's non-hydrogen atom count.
    AtomIndexOutOfBounds {
        /// The 1-based atom index from the input.
        index: u16,
        /// The number of non-hydrogen atoms in the subformula.
        num_atoms: usize,
    },
}

/// Errors that can occur while tokenizing the hydrogen layer.
#[derive(Debug, Clone, Copy, PartialEq, Eq)]
pub enum HydrogenLayerTokenError {
    /// Numeric error while lexing an index or count.
    NumericError(NumericError),
    /// Invalid character encountered.
    InvalidCharacter(char),
    /// Unexpected end of input while the given token was still expected.
    UnexpectedEndOfInput(HydogenLayerSubTokens),
    /// A repetition count does not fit the 8-bit count width.
    TryFromIntError,
    /// Atom index is zero; InChI uses 1-based indices.
    ZeroAtomIndex,
    /// Atom index exceeds the formula's non-hydrogen atom count.
    AtomIndexOutOfBounds {
        /// The 1-based atom index from the input.
        index: u16,
        /// The number of non-hydrogen atoms in the subformula.
        num_atoms: usize,
    },
    /// Range start exceeds range end.
    InvalidRange(u16, u16),
}

/// Errors that can occur while parsing or handling InChIs.
#[derive(Debug, PartialEq, Eq)]
pub enum Error {
    /// The `InChI=` prefix is missing.
    MissingInchiPrefix,
    /// The version prefix is missing.
    MissingVersionPrefix,
    /// A layer prefix is missing a forward slash.
    MissingForwardSlash(&'static str),
    /// Molecular formula parse errors.
    MolecularFormulaParserError(molecular_formulas::errors::ParserError),
    /// Wrong prefix for the layer or sublayer.
    WrongPrefix,
    /// The molecular formula and a layer disagree on the number of mixture
    /// components; the payload is the formula's component count.
    FormulaAndConnectionLayerMixtureMismatch(usize),
    /// Errors while tokenizing the atom connection layer.
    AtomConnectionTokenError(AtomConnectionTokenError),
    /// A numeric value does not fit the index width.
    TryFromIntError,
    /// Errors while tokenizing the hydrogen layer.
    HydrogenLayerTokenError(HydrogenLayerTokenError),
    /// Unrecognized layer prefix character after the main layer.
    UnrecognizedLayerPrefix(char),
    /// A layer that is recognized but not decoded yet.
    UnimplementedFeature(&'static str),
}

} // verus!
