//! The InChI versions this library recognizes.

use vstd::prelude::*;

verus! {

/// A version of the InChI standard: its name and the prefix that follows
/// `InChI=` in the text.
pub trait Version {
    /// The version name, mathematically.
    spec fn spec_version() -> Seq<char>;

    /// The version prefix, mathematically.
    spec fn spec_version_prefix() -> Seq<char>;

    /// The version name.
    fn version() -> (s: &'static str)
        ensures
            s@ == Self::spec_version(),
    ;

    /// The prefix that follows `InChI=` in the text.
    fn version_prefix() -> (s: &'static str)
        ensures
            s@ == Self::spec_version_prefix(),
    ;
}

/// InChI version 1.07.4, standard flavour (prefix `1S`).
#[derive(Default, Debug, PartialEq, Eq)]
pub struct StandardVersion1_07_4;

/// InChI version 1.07.4, non-standard flavour (prefix `1`).
#[derive(Default, Debug, PartialEq, Eq)]
pub struct Version1_07_4;

impl Version for StandardVersion1_07_4 {
    open spec fn spec_version() -> Seq<char> {
        "1.07.4"@
    }

    open spec fn spec_version_prefix() -> Seq<char> {
        "1S"@
    }

    fn version() -> (s: &'static str) {
        "1.07.4"
    }

    fn version_prefix() -> (s: &'static str) {
        "1S"
    }
}

impl Version for Version1_07_4 {
    open spec fn spec_version() -> Seq<char> {
        "1.07.4"@
    }

    open spec fn spec_version_prefix() -> Seq<char> {
        "1"@
    }

    fn version() -> (s: &'static str) {
        "1.07.4"
    }

    fn version_prefix() -> (s: &'static str) {
        "1"
    }
}

} // verus!
