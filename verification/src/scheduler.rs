//! Slot arithmetic of the constant frame rate output.
//!
//! A slot's time is computed from its number. Adding a rounded slot length over and over would
//! drift, so no function here accumulates.

use crate::consts::MF_TICKS_PER_SEC;
use crate::time::MfTime100ns;
use vstd::prelude::*;

verus! {

/// Start of slot `n` relative to the first slot, in media ticks, rounded down.
pub open spec fn slot_offset(n: int, fps: int) -> int {
    n * MF_TICKS_PER_SEC / fps
}

/// Start of slot `n` relative to the first slot, in nanoseconds, rounded down.
pub open spec fn slot_offset_ns(n: int, fps: int) -> int {
    n * 1_000_000_000 / fps
}

/// `slot(n) = t0 + n * 10_000_000 / fps`, without accumulated error.
pub fn slot_time_mf(t0: MfTime100ns, n: u64, fps: u32) -> (r: MfTime100ns)
    requires
        fps > 0,
        i64::MIN <= t0.0 + (slot_offset(n as int, fps as int) as i64) <= i64::MAX,
    ensures
        r.0 == t0.0 + (slot_offset(n as int, fps as int) as i64),
{
    let offset: u128 = (n as u128) * (MF_TICKS_PER_SEC as u128) / (fps as u128);
    MfTime100ns(t0.0 + #[verifier::truncate] (offset as i64))
}

/// Length of slot `n`: the distance to the next slot, which is not a constant.
pub fn slot_duration_mf(n: u64, fps: u32) -> (r: MfTime100ns)
    requires
        fps > 0,
        n < u64::MAX,
        slot_offset(n + 1, fps as int) <= i64::MAX,
    ensures
        r.0 == slot_offset(n + 1, fps as int) - slot_offset(n as int, fps as int),
        r.0 >= 0,
{
    proof {
        lemma_slot_offset_is_monotonic(n as int, n + 1, fps as int);
    }
    let next: MfTime100ns = slot_time_mf(MfTime100ns(0), n + 1, fps);
    let this: MfTime100ns = slot_time_mf(MfTime100ns(0), n, fps);
    MfTime100ns(next.0 - this.0)
}

/// Wake-up time of slot `n` relative to the start of the loop.
pub fn slot_deadline_ns(n: u64, fps: u32) -> (r: u64)
    requires
        fps > 0,
    ensures
        r == slot_offset_ns(n as int, fps as int) as u64,
{
    let ns: u128 = n as u128 * 1_000_000_000u128 / fps as u128;
    #[verifier::truncate]
    (ns as u64)
}

/// Number of whole slots that fit into `elapsed`.
pub open spec fn whole_slots(elapsed: int, fps: int) -> int {
    if elapsed <= 0 {
        0
    } else {
        elapsed * fps / MF_TICKS_PER_SEC as int
    }
}

pub fn slots_elapsed(elapsed: MfTime100ns, fps: u32) -> (n: u64)
    ensures
        n == whole_slots(elapsed.0 as int, fps as int) as u64,
{
    if elapsed.0 <= 0 {
        return 0;
    }
    assert(elapsed.0 * fps <= i64::MAX * u32::MAX) by (nonlinear_arith)
        requires
            0 <= elapsed.0 <= i64::MAX,
            0 <= fps <= u32::MAX,
    ;
    let slots: u128 = (elapsed.0 as u128) * (fps as u128) / (MF_TICKS_PER_SEC as u128);
    #[verifier::truncate]
    (slots as u64)
}

pub(crate) proof fn lemma_slot_offset_is_monotonic(n: int, m: int, fps: int)
    requires
        0 <= n <= m,
        fps > 0,
    ensures
        0 <= slot_offset(n, fps) <= slot_offset(m, fps),
{
    assert(0 <= n * 10_000_000 / fps <= m * 10_000_000 / fps) by (nonlinear_arith)
        requires
            0 <= n <= m,
            fps > 0,
    ;
}

/// Slots never drift: `fps` slots take exactly one second, wherever they start.
pub proof fn law_slots_do_not_drift(seconds: int, rest: int, fps: int)
    requires
        seconds >= 0,
        rest >= 0,
        fps > 0,
    ensures
        slot_offset(seconds * fps + rest, fps) == seconds * MF_TICKS_PER_SEC + slot_offset(
            rest,
            fps,
        ),
        slot_offset_ns(seconds * fps + rest, fps) == seconds * 1_000_000_000 + slot_offset_ns(
            rest,
            fps,
        ),
{
    assert((seconds * fps + rest) * 10_000_000 == rest * 10_000_000 + (seconds * 10_000_000) * fps)
        by (nonlinear_arith);
    vstd::arithmetic::div_mod::lemma_hoist_over_denominator(
        rest * 10_000_000,
        seconds * 10_000_000,
        fps as nat,
    );
    assert((seconds * fps + rest) * 1_000_000_000 == rest * 1_000_000_000 + (seconds
        * 1_000_000_000) * fps) by (nonlinear_arith);
    vstd::arithmetic::div_mod::lemma_hoist_over_denominator(
        rest * 1_000_000_000,
        seconds * 1_000_000_000,
        fps as nat,
    );
}

/// Slot starts strictly increase as long as the rate is below the tick rate.
pub proof fn law_slot_times_strictly_increase(n: int, m: int, fps: int)
    requires
        0 <= n < m,
        0 < fps <= MF_TICKS_PER_SEC,
    ensures
        slot_offset(n, fps) < slot_offset(m, fps),
{
    lemma_slot_offset_is_monotonic(n + 1, m, fps);
    assert(n * 10_000_000 / fps < (n + 1) * 10_000_000 / fps) by (nonlinear_arith)
        requires
            0 <= n,
            0 < fps <= 10_000_000,
    ;
}

/// Two slots of one stream differ in length by at most one tick.
pub proof fn law_slot_lengths_differ_by_one_tick(n: int, fps: int)
    requires
        n >= 0,
        fps > 0,
    ensures
        MF_TICKS_PER_SEC as int / fps <= slot_offset(n + 1, fps) - slot_offset(n, fps)
            <= MF_TICKS_PER_SEC as int / fps + 1,
{
    let q: int = 10_000_000int / fps;
    let a = n * 10_000_000 / fps;
    let b = (n + 1) * 10_000_000 / fps;
    vstd::arithmetic::div_mod::lemma_fundamental_div_mod(10_000_000, fps);
    vstd::arithmetic::div_mod::lemma_fundamental_div_mod(n * 10_000_000, fps);
    vstd::arithmetic::div_mod::lemma_fundamental_div_mod((n + 1) * 10_000_000, fps);
    vstd::arithmetic::div_mod::lemma_mod_bound(10_000_000, fps);
    vstd::arithmetic::div_mod::lemma_mod_bound(n * 10_000_000, fps);
    vstd::arithmetic::div_mod::lemma_mod_bound((n + 1) * 10_000_000, fps);
    assert(fps * (b - a - q) < 2 * fps && fps * (b - a - q) > -fps) by (nonlinear_arith)
        requires
            10_000_000 == fps * q + 10_000_000int % fps,
            n * 10_000_000 == fps * a + (n * 10_000_000) % fps,
            (n + 1) * 10_000_000 == fps * b + ((n + 1) * 10_000_000) % fps,
            0 <= 10_000_000int % fps < fps,
            0 <= (n * 10_000_000) % fps < fps,
            0 <= ((n + 1) * 10_000_000) % fps < fps,
    ;
    assert(-1 < b - a - q < 2) by (nonlinear_arith)
        requires
            fps > 0,
            -fps < fps * (b - a - q) < 2 * fps,
    ;
}

/// The lengths of the first `n` slots, added up.
pub open spec fn total_length(n: nat, fps: int) -> int
    decreases n,
{
    if n == 0 {
        0
    } else {
        total_length((n - 1) as nat, fps) + (slot_offset(n as int, fps) - slot_offset(n - 1, fps))
    }
}

/// Slot lengths add up to the slot start: nothing is lost between slots.
pub proof fn law_slot_lengths_add_up(n: nat, fps: int)
    requires
        fps > 0,
    ensures
        total_length(n, fps) == slot_offset(n as int, fps),
    decreases n,
{
    if n > 0 {
        law_slot_lengths_add_up((n - 1) as nat, fps);
    } else {
        assert(slot_offset(0, fps) == 0) by (nonlinear_arith)
            requires
                fps > 0,
                slot_offset(0, fps) == 0int / fps,
        ;
    }
}

/// At the start of slot `n` the number of elapsed slots is `n`, or `n - 1` where the start was
/// rounded down; exactly `n` where the start is a whole number of ticks.
pub proof fn law_elapsed_slots_invert_slot_times(n: int, fps: int)
    requires
        n >= 0,
        0 < fps <= MF_TICKS_PER_SEC,
    ensures
        n - 1 <= whole_slots(slot_offset(n, fps), fps) <= n,
        (n * MF_TICKS_PER_SEC) % fps == 0 ==> whole_slots(slot_offset(n, fps), fps) == n,
{
    let t = n * 10_000_000 / fps;
    vstd::arithmetic::div_mod::lemma_fundamental_div_mod(n * 10_000_000, fps);
    vstd::arithmetic::div_mod::lemma_mod_bound(n * 10_000_000, fps);
    let r = (n * 10_000_000) % fps;
    assert(t * fps == n * 10_000_000 - r) by (nonlinear_arith)
        requires
            n * 10_000_000 == fps * t + r,
    ;
    assert(t >= 0) by (nonlinear_arith)
        requires
            t * fps == n * 10_000_000 - r,
            n >= 0,
            0 <= r < fps,
            fps > 0,
    ;
    if t == 0 {
        assert(0 * fps == 0) by (nonlinear_arith);
    }
}

/// A slot starts at the last tick that is not behind its exact time, and so it does in
/// nanoseconds.
pub proof fn law_slots_start_on_time(n: int, fps: int)
    requires
        fps > 0,
    ensures
        slot_offset(n, fps) * fps <= n * 10_000_000 < (slot_offset(n, fps) + 1) * fps,
        slot_offset_ns(n, fps) * fps <= n * 1_000_000_000 < (slot_offset_ns(n, fps) + 1) * fps,
{
    lemma_floor(n * 10_000_000, fps);
    lemma_floor(n * 1_000_000_000, fps);
}

/// The whole slots of a time are those that have ended by then: they fit into it, and one more
/// would not.
pub proof fn law_whole_slots_fit(elapsed: int, fps: int)
    requires
        elapsed >= 0,
        fps >= 0,
    ensures
        whole_slots(elapsed, fps) * 10_000_000 <= elapsed * fps < (whole_slots(elapsed, fps) + 1)
            * 10_000_000,
        whole_slots(-elapsed, fps) == 0,
{
    assert(elapsed * fps >= 0) by (nonlinear_arith)
        requires
            elapsed >= 0,
            fps >= 0,
    ;
    lemma_floor(elapsed * fps, 10_000_000);
    if elapsed == 0 {
        assert(elapsed * fps == 0) by (nonlinear_arith)
            requires
                elapsed == 0,
        ;
    }
}

proof fn lemma_floor(a: int, b: int)
    requires
        b > 0,
    ensures
        (a / b) * b <= a < (a / b + 1) * b,
{
    vstd::arithmetic::div_mod::lemma_fundamental_div_mod(a, b);
    vstd::arithmetic::div_mod::lemma_mod_bound(a, b);
    assert((a / b) * b <= a < (a / b + 1) * b) by (nonlinear_arith)
        requires
            a == b * (a / b) + a % b,
            0 <= a % b < b,
    ;
}

} // verus!
