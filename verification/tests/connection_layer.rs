//! Tests for the connection layer decoder.

use core::str::FromStr;

use inchi_parser::errors::{AtomConnectionTokenError, Error, NumericError};
use inchi_parser::formula::ChemicalFormula;
use inchi_parser::inchi::main_layer::atom_connection_layer::AtomConnectionLayer;

fn formula(s: &str) -> ChemicalFormula {
    ChemicalFormula::from_str(s).expect("valid formula")
}

fn parse(c_layer: &str, ctx: &str) -> Result<AtomConnectionLayer, Error> {
    AtomConnectionLayer::from_str_with_context(c_layer, &formula(ctx))
}

#[test]
fn test_simple_chain() {
    // 1-2-3 over a 3-atom vocabulary -> edges {(0,1),(1,2)}
    let result = parse("c1-2-3", "C3H8").unwrap();
    assert_eq!(result.graphs.len(), 1);
    assert_eq!(result.graphs[0].num_atoms, 3);
    assert_eq!(result.graphs[0].edges, vec![(0, 1), (1, 2)]);
}

#[test]
fn test_branch_edges() {
    // 1-2(3)4 over a 4-atom vocabulary -> edges {(0,1),(1,2),(1,3)}:
    // the branch arm hangs off atom 2, and atom 4 attaches to atom 2 too.
    let result = parse("c1-2(3)4", "C4H10").unwrap();
    assert_eq!(result.graphs[0].num_atoms, 4);
    assert_eq!(result.graphs[0].edges, vec![(0, 1), (1, 2), (1, 3)]);
}

#[test]
fn test_branch_with_arms() {
    // Two arms off atom 2, continuation returns to atom 2.
    let result = parse("c1-2(3,4)5", "C5H12").unwrap();
    assert_eq!(result.graphs[0].edges, vec![(0, 1), (1, 2), (1, 3), (1, 4)]);
}

#[test]
fn test_self_loop_detected() {
    // 2-2 is a self loop, reported with the 1-based index as written.
    let err = parse("c1-2-2", "C3H8").unwrap_err();
    assert_eq!(
        err,
        Error::AtomConnectionTokenError(AtomConnectionTokenError::SelfLoopDetected(2))
    );
}

#[test]
fn test_duplicate_edges_deduplicated() {
    // 1-2-1 names the same undirected edge twice.
    let result = parse("c1-2-1", "C2H6").unwrap();
    assert_eq!(result.graphs[0].edges, vec![(0, 1)]);
}

#[test]
fn test_edges_sorted_ascending() {
    // Emission order 2-3, 3-1 canonicalizes and sorts to (0,2),(1,2).
    let result = parse("c2-3-1", "C3H8").unwrap();
    assert_eq!(result.graphs[0].edges, vec![(0, 2), (1, 2)]);
}

#[test]
fn test_edge_symmetry_queries() {
    // The graph answers connectivity the same in either endpoint order.
    let result = parse("c1-2-3", "C3H8").unwrap();
    let g = &result.graphs[0];
    assert!(g.connected(0, 1));
    assert!(g.connected(1, 0));
    assert!(g.connected(1, 2));
    assert!(g.connected(2, 1));
    assert!(!g.connected(0, 2));
    assert!(!g.connected(1, 1));
}

#[test]
fn test_repetition_yields_equal_graphs() {
    // 2*1-2 repeats one component twice and consumes two subformulas.
    let result = parse("c2*1-2", "2C2H6").unwrap();
    assert_eq!(result.graphs.len(), 2);
    assert_eq!(result.graphs[0], result.graphs[1]);
    assert_eq!(result.graphs[0].edges, vec![(0, 1)]);
}

#[test]
fn test_two_components() {
    let result = parse("c1-2;1-2-3", "C2H6.C3H8").unwrap();
    assert_eq!(result.graphs.len(), 2);
    assert_eq!(result.graphs[0].num_atoms, 2);
    assert_eq!(result.graphs[1].num_atoms, 3);
}

#[test]
fn test_mixture_shortfall_fails() {
    // Two components in the layer, one subformula in the formula.
    let err = parse("c1-2;1-2", "C2H6").unwrap_err();
    assert_eq!(err, Error::FormulaAndConnectionLayerMixtureMismatch(1));
}

#[test]
fn test_mixture_leftover_fails() {
    // One component in the layer, two subformulas in the formula.
    let err = parse("c1-2", "C2H6.C3H8").unwrap_err();
    assert_eq!(err, Error::FormulaAndConnectionLayerMixtureMismatch(2));
}

#[test]
fn test_repetition_consumes_subformulas() {
    // 3* needs three subformulas; only two are there.
    let err = parse("c3*1-2", "2C2H6").unwrap_err();
    assert_eq!(err, Error::FormulaAndConnectionLayerMixtureMismatch(2));
}

#[test]
fn test_edge_atom_out_of_bounds() {
    // CH4 has one non-hydrogen atom; atom index 2 exceeds it.
    let err = parse("c1-2", "CH4").unwrap_err();
    assert_eq!(
        err,
        Error::AtomConnectionTokenError(AtomConnectionTokenError::AtomIndexOutOfBounds {
            index: 2,
            num_atoms: 1,
        })
    );
}

#[test]
fn test_leading_zero_index() {
    let err = parse("c0-1", "C2H6").unwrap_err();
    assert_eq!(
        err,
        Error::AtomConnectionTokenError(AtomConnectionTokenError::NumericError(
            NumericError::LeadingZero
        ))
    );
}

#[test]
fn test_index_overflow() {
    // 99999 exceeds the 16-bit index width.
    let err = parse("c1-99999", "C2H6").unwrap_err();
    assert_eq!(
        err,
        Error::AtomConnectionTokenError(AtomConnectionTokenError::NumericError(
            NumericError::PositiveOverflow
        ))
    );
}

#[test]
fn test_invalid_character_in_connection() {
    let err = parse("c1-X", "C2H6").unwrap_err();
    assert_eq!(
        err,
        Error::AtomConnectionTokenError(AtomConnectionTokenError::InvalidCharacter('X'))
    );
}

#[test]
fn test_illegal_consecutive_punctuation() {
    let err = parse("c1--2", "C2H6").unwrap_err();
    assert!(matches!(
        err,
        Error::AtomConnectionTokenError(
            AtomConnectionTokenError::IllegalConsecutiveSubTokens { .. }
        )
    ));
}

#[test]
fn test_punctuation_at_end_of_input() {
    let err = parse("c1-", "C2H6").unwrap_err();
    assert!(matches!(
        err,
        Error::AtomConnectionTokenError(AtomConnectionTokenError::UnexpectedEndOfInput(_))
    ));
}

#[test]
fn test_dangling_close_bracket() {
    let err = parse("c1)2", "C2H6").unwrap_err();
    assert_eq!(
        err,
        Error::AtomConnectionTokenError(
            AtomConnectionTokenError::ClosingBracketBeforeOpeningBracket
        )
    );
}

#[test]
fn test_comma_before_any_edge() {
    let err = parse("c1,2", "C2H6").unwrap_err();
    assert_eq!(
        err,
        Error::AtomConnectionTokenError(AtomConnectionTokenError::CommaBeforeAnyEdge)
    );
}

#[test]
fn test_branch_as_first_token() {
    // A branch cannot stand before any atom.
    let err = parse("c(1)2", "C2H6").unwrap_err();
    assert!(matches!(
        err,
        Error::AtomConnectionTokenError(AtomConnectionTokenError::IllegalStartingToken(_))
    ));
}

#[test]
fn test_missing_layer_prefix() {
    let err = parse("1-2", "C2H6").unwrap_err();
    assert_eq!(err, Error::MissingInchiPrefix);
}

#[test]
fn test_branch_self_loop_detected() {
    // An arm that starts with the branch's own base atom is a self loop.
    let err = parse("c1-2(2)3", "C3H8").unwrap_err();
    assert_eq!(
        err,
        Error::AtomConnectionTokenError(AtomConnectionTokenError::SelfLoopDetected(2))
    );
}

#[test]
fn test_unclosed_branch_ends_quietly() {
    // A branch left unclosed at end of input contributes no edges; the
    // stream simply ends.
    let result = parse("c1-2(3", "C3H8").unwrap();
    assert_eq!(result.graphs[0].edges, vec![(0, 1)]);
}

#[test]
fn test_edge_count_overflows_index_width() {
    // 65536 emitted edges (duplicates included) exceed the 16-bit edge
    // count; the component fails before its endpoints are validated.
    let mut text = String::from("c1");
    for _ in 0..32768 {
        text.push_str("-2-1");
    }
    let err = parse(&text, "C2H6").unwrap_err();
    assert_eq!(err, Error::TryFromIntError);
}
