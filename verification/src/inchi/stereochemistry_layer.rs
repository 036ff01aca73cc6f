//! The stereochemistry layer of an InChI and its sublayers (not decoded
//! yet).

use vstd::prelude::*;

use crate::errors::Error;

verus! {

/// The stereochemistry layer of an InChI (not decoded yet).
#[derive(Debug, Clone, Copy, PartialEq, Eq)]
pub struct StereochemistryLayer;

/// The double bond stereo sublayer (`b`, not decoded yet).
#[derive(Debug, Clone, Copy, PartialEq, Eq)]
pub struct DoubleBondSublayer;

/// The tetrahedral stereo sublayer (`t`, not decoded yet).
#[derive(Debug, Clone, Copy, PartialEq, Eq)]
pub struct TetrahedralSublayer;

/// The allene stereo sublayer (`m`, not decoded yet).
#[derive(Debug, Clone, Copy, PartialEq, Eq)]
pub struct AlleneSublayer;

/// The stereochemistry information sublayer (`s`, not decoded yet).
#[derive(Debug, Clone, Copy, PartialEq, Eq)]
pub struct StereoChemistryInformationSublayer;

impl core::str::FromStr for StereochemistryLayer {
    type Err = Error;

    fn from_str(s: &str) -> Result<Self, Error> {
        Err(Error::UnimplementedFeature("Stereochemistry layer not implemented yet"))
    }
}

impl core::str::FromStr for AlleneSublayer {
    type Err = Error;

    fn from_str(s: &str) -> Result<Self, Error> {
        Err(Error::UnimplementedFeature("Allene sublayer not implemented yet"))
    }
}

impl core::str::FromStr for DoubleBondSublayer {
    type Err = Error;

    fn from_str(s: &str) -> Result<Self, Error> {
        Err(Error::UnimplementedFeature("Double bond sublayer not implemented yet"))
    }
}

impl core::str::FromStr for StereoChemistryInformationSublayer {
    type Err = Error;

    fn from_str(s: &str) -> Result<Self, Error> {
        Err(Error::UnimplementedFeature("Stereochemistry information sublayer not implemented yet"))
    }
}

impl core::str::FromStr for TetrahedralSublayer {
    type Err = Error;

    fn from_str(s: &str) -> Result<Self, Error> {
        Err(Error::UnimplementedFeature("Tetrahedral sublayer not implemented yet"))
    }
}

} // verus!
