//! Decoder for the layers of an InChI (IUPAC International Chemical
//! Identifier) that follow the leading formula layer.
//!
//! The connection layer (`/c`) is decoded into one undirected molecular
//! graph per mixture component, and the hydrogen layer (`/h`) into per-atom
//! fixed-hydrogen counts plus mobile (tautomeric) hydrogen groups.  The
//! molecular formula itself is parsed by the `molecular_formulas` crate,
//! which supplies the per-component non-hydrogen atom counts that both
//! decoders validate against.

pub mod constants;
pub mod digits;
pub mod errors;
pub mod formula;
pub mod inchi;
pub mod segments;
pub mod text;
pub mod version;
