//! The proton sublayer of an InChI (not decoded yet).

use vstd::prelude::*;

use crate::errors::Error;
use crate::inchi::charge_layer::ProtonSublayer;

verus! {

impl core::str::FromStr for ProtonSublayer {
    type Err = Error;

    fn from_str(s: &str) -> Result<Self, Error> {
        Err(Error::UnimplementedFeature("Proton sublayer not implemented yet"))
    }
}

} // verus!
