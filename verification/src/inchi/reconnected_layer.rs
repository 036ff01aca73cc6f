//! The reconnected layer of an InChI (not decoded yet).

use vstd::prelude::*;

verus! {

/// The reconnected layer (`r`) of an InChI (not decoded yet).
#[derive(Debug, Clone, Copy, PartialEq, Eq)]
pub struct ReconnectedLayer;

} // verus!
