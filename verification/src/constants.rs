//! Constants of the InChI text format.

use vstd::prelude::*;

verus! {

/// The prefix string of every InChI.
pub const INCHI_PREFIX: &'static str = "InChI=";

/// Whether `c` is a single-character prefix of a known InChI layer.
///
/// `c` = connections, `h` = H atoms, `q` = charge, `p` = protons,
/// `b` = double bond stereo, `t` = tetrahedral stereo, `m` = stereo type,
/// `s` = stereo bond notation, `i` = isotopes, `f` = fixed H,
/// `r` = reconnected.
pub open spec fn spec_known_layer_prefix(c: char) -> bool {
    ||| c == 'c'
    ||| c == 'h'
    ||| c == 'q'
    ||| c == 'p'
    ||| c == 'b'
    ||| c == 't'
    ||| c == 'm'
    ||| c == 's'
    ||| c == 'i'
    ||| c == 'f'
    ||| c == 'r'
}

/// Whether `c` is a single-character prefix of a known InChI layer.
pub fn is_known_layer_prefix(c: char) -> (r: bool)
    ensures
        r == spec_known_layer_prefix(c),
{
    c == 'c' || c == 'h' || c == 'q' || c == 'p' || c == 'b' || c == 't' || c == 'm' || c == 's'
        || c == 'i' || c == 'f' || c == 'r'
}

} // verus!
