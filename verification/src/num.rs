//! Numbers kept within bounds.

use vstd::prelude::*;

verus! {

/// `v`, or the nearer end of `lo..=hi` where it lies outside.
pub open spec fn clamped(v: int, lo: int, hi: int) -> int {
    if v < lo {
        lo
    } else if v > hi {
        hi
    } else {
        v
    }
}

} // verus!
