//! Conventions for the standard streams.

use vstd::prelude::*;

verus! {

/// Whether this path is `-`, meaning to read from stdin or write to
/// stdout.
pub fn path_is_stdio(path: &str) -> (r: bool)
    ensures
        r == (path@ == "-"@),
{
    crate::text::str_eq(path, "-")
}

} // verus!
