//! The updates that worker threads make to a shared counter while they hold
//! its lock.

use vstd::prelude::*;

verus! {

/// Adds one to a signed counter (`*count += 1`), which must be below
/// `i32::MAX` (the addition overflows there).
pub fn increment(count: &mut i32)
    requires
        *old(count) < i32::MAX,
    ensures
        *final(count) == *old(count) + 1,
{
    *count = *count + 1;
}

/// Adds `amount` to an unsigned counter (`*total += amount`); the sum must
/// fit in a `usize`.
pub fn accumulate(total: &mut usize, amount: usize)
    requires
        *old(total) + amount <= usize::MAX,
    ensures
        *final(total) == *old(total) + amount,
{
    *total = *total + amount;
}

} // verus!
