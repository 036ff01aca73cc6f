//! Tests for whole-string InChI parsing and the lexer building blocks.

use core::str::FromStr;

use inchi_parser::digits::lex_number;
use inchi_parser::errors::{Error, HydrogenLayerTokenError, NumericError};
use inchi_parser::formula::ChemicalFormula;
use inchi_parser::inchi::main_layer::atom_connection_layer::connection_layer_token_iter::sub_tokens::{
    ConnectionLayerSubToken, ConnectionLayerSubTokenIter,
};
use inchi_parser::inchi::main_layer::hydrogen_layer::sub_tokens::{
    HydogenLayerSubTokens, HydrogenLayerSubTokenIter,
};
use inchi_parser::inchi::main_layer::hydrogen_layer::HydrogensSubLayer;
use inchi_parser::inchi::InChI;
use inchi_parser::text::chars_of;
use inchi_parser::version::{StandardVersion1_07_4, Version, Version1_07_4};

#[test]
fn test_ethanol_round_trip() {
    let result = "InChI=1S/C2H6O/c1-2-3/h3H,2H2,1H3".parse::<InChI>().unwrap();
    let conn = result.main_layer.atom_connections.as_ref().unwrap();
    assert_eq!(conn.graphs.len(), 1);
    assert_eq!(conn.graphs[0].num_atoms, 3);
    assert_eq!(conn.graphs[0].edges, vec![(0, 1), (1, 2)]);
    let hyd = result.main_layer.hydrogens.as_ref().unwrap();
    assert_eq!(hyd.components.len(), 1);
    assert_eq!(hyd.components[0].fixed_h, vec![3, 2, 1]);
}

#[test]
fn test_version_names_and_prefixes() {
    assert_eq!(StandardVersion1_07_4::version(), "1.07.4");
    assert_eq!(StandardVersion1_07_4::version_prefix(), "1S");
    assert_eq!(Version1_07_4::version(), "1.07.4");
    assert_eq!(Version1_07_4::version_prefix(), "1");
}

#[test]
fn test_non_standard_version_prefix() {
    let result = "InChI=1/CH4/h1H4".parse::<InChI<Version1_07_4>>();
    assert!(result.is_ok(), "Non-standard prefix should parse: {result:?}");
}

#[test]
fn test_standard_parser_rejects_other_version() {
    // The standard parser expects the `1S` prefix.
    let result = "InChI=2S/CH4".parse::<InChI>();
    assert!(matches!(result, Err(Error::MissingVersionPrefix)));
}

#[test]
fn test_hydrogen_mobile_charged_scenario() {
    // h(H-,1,2) over a 2-atom component.
    let formula = ChemicalFormula::from_str("C2H6").unwrap();
    let result = HydrogensSubLayer::from_str_with_context("h(H-,1,2)", &formula).unwrap();
    let comp = &result.components[0];
    assert_eq!(comp.fixed_h, vec![0, 0]);
    assert_eq!(comp.mobile_groups.len(), 1);
    assert_eq!(comp.mobile_groups[0].count, 1);
    assert!(comp.mobile_groups[0].charged);
    assert_eq!(&comp.mobile_groups[0].atoms[..], &[0u16, 1u16]);
}

#[test]
fn test_hydrogen_mobile_atom_out_of_bounds() {
    let formula = ChemicalFormula::from_str("CH4").unwrap();
    let err = HydrogensSubLayer::from_str_with_context("h(H,1,5)", &formula).unwrap_err();
    assert_eq!(
        err,
        Error::HydrogenLayerTokenError(HydrogenLayerTokenError::AtomIndexOutOfBounds {
            index: 5,
            num_atoms: 1,
        })
    );
}

#[test]
fn test_hydrogen_pending_atoms_without_h() {
    // Atoms buffered but never assigned fail at end of input.
    let formula = ChemicalFormula::from_str("C2H6").unwrap();
    let err = HydrogensSubLayer::from_str_with_context("h1,2", &formula).unwrap_err();
    assert!(matches!(
        err,
        Error::HydrogenLayerTokenError(HydrogenLayerTokenError::UnexpectedEndOfInput(
            HydogenLayerSubTokens::Index(2)
        ))
    ));
}

#[test]
fn test_hydrogen_unclosed_mobile_group() {
    let formula = ChemicalFormula::from_str("C2H6").unwrap();
    let err = HydrogensSubLayer::from_str_with_context("h(H,1,2", &formula).unwrap_err();
    assert!(matches!(
        err,
        Error::HydrogenLayerTokenError(HydrogenLayerTokenError::UnexpectedEndOfInput(
            HydogenLayerSubTokens::CloseParenthesis
        ))
    ));
}

#[test]
fn test_hydrogen_range_inside_group_rejected() {
    let formula = ChemicalFormula::from_str("C3H8").unwrap();
    let err = HydrogensSubLayer::from_str_with_context("h(H,1-2)", &formula).unwrap_err();
    assert_eq!(
        err,
        Error::HydrogenLayerTokenError(HydrogenLayerTokenError::InvalidCharacter('-'))
    );
}

#[test]
fn test_lex_number_reads_digit_run() {
    let chars = chars_of("123-4");
    assert_eq!(lex_number(&chars, 0), Ok((123, 3)));
    assert_eq!(lex_number(&chars, 4), Ok((4, 5)));
}

#[test]
fn test_lex_number_rejects_leading_zero_and_overflow() {
    let chars = chars_of("0123");
    assert_eq!(lex_number(&chars, 0), Err(NumericError::LeadingZero));
    let chars = chars_of("65536");
    assert_eq!(lex_number(&chars, 0), Err(NumericError::PositiveOverflow));
    let chars = chars_of("65535");
    assert_eq!(lex_number(&chars, 0), Ok((65535, 5)));
}

#[test]
fn test_connection_sub_token_lexer() {
    let mut it = ConnectionLayerSubTokenIter::new(chars_of("1-2(3)4"));
    assert_eq!(it.peek_is_digit(), Some(true));
    assert!(!it.is_empty());
    assert_eq!(it.next(), Some(Ok(ConnectionLayerSubToken::Index(1))));
    assert_eq!(it.next(), Some(Ok(ConnectionLayerSubToken::Dash)));
    assert_eq!(it.next(), Some(Ok(ConnectionLayerSubToken::Index(2))));
    assert_eq!(it.next(), Some(Ok(ConnectionLayerSubToken::OpenParenthesis)));
    assert_eq!(it.next(), Some(Ok(ConnectionLayerSubToken::Index(3))));
    assert_eq!(it.next(), Some(Ok(ConnectionLayerSubToken::CloseParenthesis)));
    assert_eq!(it.next(), Some(Ok(ConnectionLayerSubToken::Index(4))));
    assert_eq!(it.next(), None);
    assert!(it.is_empty());
}

#[test]
fn test_connection_sub_token_consume_digit() {
    let mut it = ConnectionLayerSubTokenIter::new(chars_of("42,"));
    assert_eq!(it.consume_digit(), Ok(42));
    assert_eq!(it.peek_is_digit(), Some(false));
}

#[test]
fn test_hydrogen_sub_token_lexer() {
    let mut it = HydrogenLayerSubTokenIter::new(chars_of("1-2H3,(H2-,4)"));
    assert_eq!(it.peek_is_digit(), Some(true));
    assert_eq!(it.peek_is_hydrogen(), Some(false));
    assert_eq!(it.next(), Some(Ok(HydogenLayerSubTokens::Range((1, 2)))));
    assert_eq!(it.next(), Some(Ok(HydogenLayerSubTokens::H(3))));
    assert_eq!(it.next(), Some(Ok(HydogenLayerSubTokens::Comma)));
    assert_eq!(
        it.next(),
        Some(Ok(HydogenLayerSubTokens::SharedHydrogens { count: 2, charged: true }))
    );
    assert_eq!(it.next(), Some(Ok(HydogenLayerSubTokens::Index(4))));
    assert_eq!(it.next(), Some(Ok(HydogenLayerSubTokens::CloseParenthesis)));
    assert_eq!(it.next(), None);
}

#[test]
fn test_hydrogen_asterisk_token() {
    // A digit run followed by `*` inside a component is lexed as a
    // repetition marker, which the component parser rejects in place.
    let mut it = HydrogenLayerSubTokenIter::new(chars_of("2*"));
    assert_eq!(it.next(), Some(Ok(HydogenLayerSubTokens::Asterisk(2))));
    let formula = ChemicalFormula::from_str("C3H8").unwrap();
    let err = HydrogensSubLayer::from_str_with_context("h1H,2*1H", &formula).unwrap_err();
    assert_eq!(
        err,
        Error::HydrogenLayerTokenError(HydrogenLayerTokenError::InvalidCharacter('*'))
    );
}
