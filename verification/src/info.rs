//! Additional information about the library itself.

use vstd::prelude::*;

verus! {

/// Return the version number of the library as a string of the form "M.m.p",
/// where M, m and p are the major, minor and patch version numbers.
pub fn version() -> (v: &'static str)
    ensures
        v@ == "0.1.0"@,
        v@.len() > 0,
{
    proof {
        reveal_strlit("0.1.0");
    }
    "0.1.0"
}

} // verus!
