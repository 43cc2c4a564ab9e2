//! Disk space: how much a recording needs, and when it has to end early.
//!
//! A file that cannot be completed cannot be played. So a recording does not start without the
//! space that its full length may take, and it ends early, with a complete file, when the space
//! runs low all the same.

use crate::error::{MediaError, MediaResult};
use crate::rounding::{nearest, nearest_even, round_to, rounded};
use crate::text::{decimal, fixed_decimal, push_fixed_decimal, push_wide_decimal};
use vstd::prelude::*;

verus! {

/// A file takes this many percent of bit rate times length.
pub const DISK_ESTIMATE_PERCENT: u128 = 120;

/// No recording is estimated below one gibibyte.
pub const DISK_MIN_REQUIREMENT: u64 = 1_073_741_824;

/// Space below which a running recording ends: 200 mebibytes.
pub const DEFAULT_DISK_FLOOR: u64 = 209_715_200;

/// Significand bound of a double precision number.
const DOUBLE_TOP: u64 = 0x20_0000_0000_0000;

/// The floor in use. It can be moved, so that the early end can be tried without a full disk.
#[derive(Debug)]
pub struct DiskFloor {
    bytes: u64,
}

impl Default for DiskFloor {
    fn default() -> (f: DiskFloor)
        ensures
            f.floor() == DEFAULT_DISK_FLOOR,
    {
        DiskFloor { bytes: DEFAULT_DISK_FLOOR }
    }
}

impl DiskFloor {
    pub closed spec fn floor(&self) -> u64 {
        self.bytes
    }

    pub fn disk_floor_bytes(&self) -> (n: u64)
        ensures
            n == self.floor(),
    {
        self.bytes
    }

    pub fn set_disk_floor_for_testing(&mut self, bytes: u64)
        ensures
            final(self).floor() == bytes,
    {
        self.bytes = bytes;
    }
}

/// The estimate: bytes of the stream at its bit rate, plus a fifth, rounded down; at least the
/// minimum, and at most what 64 bits can hold.
pub open spec fn estimate(bitrate_bps: int, duration_secs: int) -> int {
    let raw = bitrate_bps * duration_secs * DISK_ESTIMATE_PERCENT / 800;
    if raw < DISK_MIN_REQUIREMENT {
        DISK_MIN_REQUIREMENT as int
    } else if raw > u64::MAX {
        u64::MAX as int
    } else {
        raw
    }
}

/// Space that a recording needs.
pub fn required_bytes(bitrate_bps: u32, duration_secs: u64) -> (n: u64)
    ensures
        n == estimate(bitrate_bps as int, duration_secs as int),
{
    assert(0 <= bitrate_bps * duration_secs <= u32::MAX * u64::MAX) by (nonlinear_arith)
        requires
            0 <= bitrate_bps <= u32::MAX,
            0 <= duration_secs <= u64::MAX,
    ;
    let raw: u128 = bitrate_bps as u128 * duration_secs as u128 * DISK_ESTIMATE_PERCENT / 800;
    if raw < DISK_MIN_REQUIREMENT as u128 {
        DISK_MIN_REQUIREMENT
    } else if raw > u64::MAX as u128 {
        u64::MAX
    } else {
        raw as u64
    }
}

/// A longer recording, or one at a higher bit rate, never needs less space.
pub proof fn law_estimate_is_monotonic(bitrate: int, secs: int, higher: int, longer: int)
    requires
        0 <= bitrate <= higher,
        0 <= secs <= longer,
    ensures
        estimate(bitrate, secs) <= estimate(higher, longer),
{
    assert(bitrate * secs <= higher * longer) by (nonlinear_arith)
        requires
            0 <= bitrate <= higher,
            0 <= secs <= longer,
    ;
}

/// Every recording needs at least the minimum.
pub proof fn law_estimate_has_a_floor(bitrate: int, secs: int)
    ensures
        estimate(bitrate, secs) >= DISK_MIN_REQUIREMENT,
{
}

/// Before the start: the free space has to cover the estimate. A failed query is passed on.
pub fn check_before_start(free: MediaResult<u64>, required: u64) -> (r: MediaResult<u64>)
    ensures
        match free {
            Err(e) => r == Err::<u64, MediaError>(e),
            Ok(bytes) => if bytes >= required {
                r == Ok::<u64, MediaError>(bytes)
            } else {
                r matches Err(MediaError::InsufficientDiskSpace {
                    free: f,
                    required: q,
                    free_human,
                    required_human,
                }) && f == bytes && q == required && free_human@ == human_text(bytes)
                    && required_human@ == human_text(required)
            },
        },
{
    match free {
        Err(e) => Err(e),
        Ok(bytes) => if bytes < required {
            Err(
                MediaError::InsufficientDiskSpace {
                    free: bytes,
                    required,
                    free_human: human(bytes),
                    required_human: human(required),
                },
            )
        } else {
            Ok(bytes)
        },
    }
}

/// While recording: the free space is known and lies below the floor. A query that failed is no
/// reason to stop.
pub fn below_floor(free: Option<u64>, floor: u64) -> (r: bool)
    ensures
        r == (free matches Some(bytes) && bytes < floor),
{
    match free {
        Some(bytes) => bytes < floor,
        None => false,
    }
}

/// `n` as a double precision number.
pub open spec fn double_of(n: u64) -> nat {
    rounded(n as nat, 0x20_0000_0000_0000)
}

/// `p / u` rounded to the nearest integer, ties to even.
pub open spec fn rounded_quotient(p: nat, u: nat) -> nat {
    nearest_even(p, u) / u
}

/// A number of bytes for people: gibibytes with two decimals, below that whole mebibytes.
pub open spec fn human_text(bytes: u64) -> Seq<char> {
    if double_of(bytes) >= 1_073_741_824 {
        let hundredths = rounded_quotient(double_of(bytes) * 100, 1_073_741_824);
        decimal(hundredths / 100) + "."@ + fixed_decimal(hundredths % 100, 2) + " GB"@
    } else {
        decimal(rounded_quotient(double_of(bytes), 1_048_576)) + " MB"@
    }
}

pub fn human(bytes: u64) -> (s: String)
    ensures
        s@ == human_text(bytes),
{
    proof {
        crate::rounding::lemma_rounded_bounds(bytes as nat, 0x20_0000_0000_0000);
    }
    let value: u128 = round_to(bytes as u128, DOUBLE_TOP as u128);
    let mut s: String = String::new();
    if value >= 1_073_741_824 {
        let hundredths: u128 = nearest(value * 100, 1_073_741_824) / 1_073_741_824;
        push_wide_decimal(&mut s, hundredths / 100);
        s.append(".");
        push_fixed_decimal(&mut s, (hundredths % 100) as u64, 2);
        s.append(" GB");
    } else {
        push_wide_decimal(&mut s, nearest(value, 1_048_576) / 1_048_576);
        s.append(" MB");
    }
    assert(s@ =~= human_text(bytes));
    s
}

/// The estimate is the stream at its bit rate and a fifth more, in whole bytes, unless that lies
/// below the minimum or cannot be held.
pub proof fn law_estimate_is_a_fifth_more(bitrate: int, secs: int)
    requires
        bitrate >= 0,
        secs >= 0,
    ensures
        1_073_741_824 <= estimate(bitrate, secs) <= u64::MAX,
        1_073_741_824 < estimate(bitrate, secs) < u64::MAX ==> estimate(bitrate, secs) * 20 <= 3 * (
        bitrate * secs) < (estimate(bitrate, secs) + 1) * 20,
        estimate(bitrate, secs) == 1_073_741_824 ==> 3 * (bitrate * secs) < 1_073_741_825 * 20,
        estimate(bitrate, secs) == u64::MAX ==> 3 * (bitrate * secs) >= u64::MAX * 20,
{
}

/// From one gibibyte on a size is told in gibibytes, to the nearest hundredth; below that in whole
/// mebibytes.
pub proof fn law_sizes_are_told_to_the_nearest(bytes: u64)
    requires
        bytes < 0x20_0000_0000_0000,
    ensures
        bytes >= 1_073_741_824 ==> exists|h: nat|
            human_text(bytes) == decimal(h / 100) + "."@ + #[trigger] fixed_decimal(h % 100, 2)
                + " GB"@ && -1_073_741_824 <= 2 * (h * 1_073_741_824 - bytes * 100)
                <= 1_073_741_824,
        bytes < 1_073_741_824 ==> exists|m: nat|
            human_text(bytes) == #[trigger] decimal(m) + " MB"@ && -1_048_576 <= 2 * (m * 1_048_576
                - bytes) <= 1_048_576,
{
    assert(double_of(bytes) == bytes) by {
        crate::rounding::lemma_unit_bounds(bytes as nat, 0x20_0000_0000_0000);
    }
    if bytes >= 1_073_741_824 {
        let h = rounded_quotient(double_of(bytes) * 100, 1_073_741_824);
        assert(human_text(bytes) == decimal(h / 100) + "."@ + fixed_decimal(h % 100, 2) + " GB"@);
    } else {
        let m = rounded_quotient(double_of(bytes), 1_048_576);
        assert(human_text(bytes) == decimal(m) + " MB"@);
    }
}

} // verus!
