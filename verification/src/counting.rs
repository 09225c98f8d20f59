//! Counters that stop at the largest value instead of wrapping around.

use vstd::prelude::*;

verus! {

/// `n + 1`, held at the largest value once that is reached.
pub open spec fn saturating_succ_u32(n: u32) -> u32 {
    if n < u32::MAX {
        (n + 1) as u32
    } else {
        n
    }
}

/// `n + 1`, held at the largest value once that is reached.
pub open spec fn saturating_succ_u64(n: u64) -> u64 {
    if n < u64::MAX {
        (n + 1) as u64
    } else {
        n
    }
}

/// `n + 1`, held at the largest value once that is reached.
pub open spec fn saturating_succ_usize(n: usize) -> usize {
    if n < usize::MAX {
        (n + 1) as usize
    } else {
        n
    }
}

/// Counts one more in `counter`, unless it stands at the largest value.
pub fn count_up(counter: &mut u64)
    ensures
        *final(counter) == saturating_succ_u64(*old(counter)),
{
    if *counter < u64::MAX {
        *counter = *counter + 1;
    }
}

} // verus!
