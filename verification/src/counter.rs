//! Event counters and clock readings: 64-bit values that wrap around.

use vstd::prelude::*;

verus! {

/// The value of an event counter after one more event.
pub open spec fn next_count(n: u64) -> u64 {
    if n == u64::MAX {
        0
    } else {
        (n + 1) as u64
    }
}

/// Counts one event.
pub fn bump(n: &mut u64)
    ensures
        *final(n) == next_count(*old(n)),
{
    *n = n.wrapping_add(1);
}

/// The 64-bit clock reading for a moment that may lie outside the clock's range.
pub open spec fn wrapped(t: int) -> i64 {
    if t > i64::MAX {
        (t - 0x1_0000_0000_0000_0000) as i64
    } else if t < i64::MIN {
        (t + 0x1_0000_0000_0000_0000) as i64
    } else {
        t as i64
    }
}

/// `t` moved forward by `d`.
pub fn later(t: i64, d: i64) -> (r: i64)
    ensures
        r == wrapped(t + d),
{
    t.wrapping_add(d)
}

/// `t` moved back by `d`.
pub fn sooner(t: i64, d: i64) -> (r: i64)
    ensures
        r == wrapped(t - d),
{
    t.wrapping_sub(d)
}

/// Counting goes up by one, and starts anew behind the largest number.
pub proof fn law_counting_goes_up_by_one(n: u64)
    ensures
        n < u64::MAX ==> next_count(n) == n + 1,
        next_count(u64::MAX) == 0,
{
}

/// A moment within the clock's range is kept; one beyond it is off by the clock's range.
pub proof fn law_moments_within_the_range_are_kept(t: int)
    requires
        i64::MIN + i64::MIN <= t <= i64::MAX + i64::MAX + 1,
    ensures
        i64::MIN <= t <= i64::MAX ==> wrapped(t) == t,
        (t - wrapped(t)) % 0x1_0000_0000_0000_0000 == 0,
{
}

} // verus!
