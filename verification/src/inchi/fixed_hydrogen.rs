//! The fixed hydrogen layer of an InChI (not decoded yet).

use vstd::prelude::*;

verus! {

/// The fixed hydrogen layer (`f`) of an InChI (not decoded yet).
#[derive(Debug, Clone, Copy, PartialEq, Eq)]
pub struct FixedHydrogenLayer;

} // verus!
