//! The charge layer of an InChI (not decoded yet).

use vstd::prelude::*;

verus! {

/// The charge layer of an InChI: its charged and proton sublayers.
#[derive(Debug, Clone, PartialEq, Eq)]
pub struct ChargeLayer {
    /// The charged species sublayer (`q`), when present.
    pub charged_sublayer: Option<ChargeSubLayer>,
    /// The proton sublayer (`p`), when present.
    pub proton_sublayer: Option<ProtonSublayer>,
}

/// The charged species sublayer (`q`) of an InChI (not decoded yet).
#[derive(Debug, Clone, Copy, PartialEq, Eq)]
pub struct ChargeSubLayer;

/// The proton sublayer (`p`) of an InChI (not decoded yet).
#[derive(Debug, Clone, Copy, PartialEq, Eq)]
pub struct ProtonSublayer;

} // verus!
