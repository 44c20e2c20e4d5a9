//! Counting bytes.

use vstd::prelude::*;

verus! {

/// `total` and `more` added up, stopping at the largest value a counter
/// holds: a counter never wraps round and never goes down.
pub open spec fn capped_sum(total: u64, more: u64) -> u64 {
    if total + more <= u64::MAX {
        (total + more) as u64
    } else {
        u64::MAX
    }
}

/// Adds `more` bytes to the counter `total`.
pub fn add_capped(total: u64, more: u64) -> (sum: u64)
    ensures
        sum == capped_sum(total, more),
        sum >= total,
{
    if more <= u64::MAX - total {
        total + more
    } else {
        u64::MAX
    }
}

} // verus!
