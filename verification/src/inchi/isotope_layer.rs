//! The isotope layer of an InChI (not decoded yet).

use vstd::prelude::*;

verus! {

/// The isotope layer (`i`) of an InChI (not decoded yet).
#[derive(Debug, Clone, Copy, PartialEq, Eq)]
pub struct IsotopeLayer;

} // verus!
