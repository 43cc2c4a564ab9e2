//! Thresholds and limits in one place, with the small formulas that depend on them alone.

use vstd::prelude::*;

verus! {

/// Media time unit: 100 nanoseconds, so ten million ticks per second.
pub const MF_TICKS_PER_SEC: i64 = 10_000_000;

/// Default output frame rate. It defines the output timeline, not how often frames are captured.
pub const DEFAULT_FPS: u32 = 30;

/// Smallest capacity of the queue between the slot scheduler and the encoder.
pub const QUEUE_CAPACITY: usize = 8;

/// Time the queue has to bridge, in milliseconds.
///
/// The capacity is derived from time, not from a frame count: at 60 fps eight frames
/// would cover only 133 ms and a short encoder hiccup would already drop frames.
pub const QUEUE_CUSHION_MS: u64 = 267;

/// Largest capacity of that queue (a 2560x1600 NV12 frame takes about 6 MB).
pub const QUEUE_CAPACITY_MAX: usize = 40;

/// Number of buffers in the capture frame pool.
pub const FRAME_POOL_BUFFERS: i32 = 2;

/// How long a capture may run without any frame before it is given up.
pub const FIRST_FRAME_TIMEOUT_SECS: u64 = 5;

/// Silence from the capture callback that is worth a warning. A still desktop produces no
/// callbacks, so this never ends a recording.
pub const CAPTURE_STALL_WARN_SECS: u64 = 3;

/// Minimum distance between two such warnings.
pub const CAPTURE_STALL_WARN_THROTTLE_SECS: u64 = 5;

/// Length of one audio grid slot, and of one filler block of silence.
pub const SILENCE_CHUNK_MS: i64 = 20;

/// Filler silence never reaches closer to "now" than this, so that a real packet
/// always sorts behind the silence already written.
pub const SILENCE_GUARD_MS: i64 = 100;

/// Frames dropped within this window after the start are counted apart.
pub const STARTUP_WINDOW_SECS: u64 = 2;

/// Upper bound on the silence appended to the audio track when a recording ends.
pub const AUDIO_TAIL_PAD_MAX_MS: i64 = 1000;

/// Budget for the whole stop sequence.
pub const STOP_TOTAL_TIMEOUT_MS: u64 = 20_000;

/// A one-second peak below this counts as a weak input signal (about -50 dBFS).
pub const AUDIO_WEAK_PEAK: u64 = 100;

/// A signal has to stay weak for this many seconds before it is reported.
pub const AUDIO_WEAK_SECS: u64 = 5;

/// Distance between two reports of a signal that stays weak.
pub const AUDIO_WEAK_REWARN_SECS: u64 = 60;

/// Budget for one thread join during the stop sequence.
pub const STOP_JOIN_TIMEOUT_MS: u64 = 15_000;

/// Key frame distance in seconds.
pub const GOP_SECONDS: u32 = 2;

/// Progress events per second.
pub const PROGRESS_EVENT_HZ: u32 = 4;

/// Hard limit on the length of a recording: two hours.
pub const MAX_RECORDING_SECS: u64 = 7_200;

/// The only accepted frame rates.
pub const ALLOWED_FPS: [u32; 3] = [30, 60, 90];

/// Largest accepted capture width.
pub const MAX_CAPTURE_WIDTH: u32 = 2560;

/// Largest accepted capture height.
pub const MAX_CAPTURE_HEIGHT: u32 = 1600;

/// A drop ratio above this many percent within the window marks a recording as degraded.
pub const DEGRADED_DROP_PERCENT: u64 = 5;

/// Length of the window that the drop ratio is taken over, in seconds.
pub const DEGRADED_WINDOW_SECS: u64 = 10;

/// Bounds of the automatically chosen bit rate.
pub const MIN_BITRATE: u32 = 4_000_000;

pub const MAX_BITRATE: u32 = 20_000_000;

/// `x` moved into `lo..=hi`.
pub open spec fn clamped(x: int, lo: int, hi: int) -> int {
    if x < lo {
        lo
    } else if x > hi {
        hi
    } else {
        x
    }
}

/// Frames of one queue cushion at `fps`, rounded to the nearest integer.
pub open spec fn cushion_frames(fps: int) -> int {
    (fps * QUEUE_CUSHION_MS + 500) / 1000
}

/// Queue capacity that keeps the time cushion constant over the frame rate.
pub open spec fn queue_capacity(fps: int) -> int {
    clamped(cushion_frames(fps), QUEUE_CAPACITY as int, QUEUE_CAPACITY_MAX as int)
}

pub fn queue_capacity_for(fps: u32) -> (n: usize)
    ensures
        n == queue_capacity(fps as int),
        QUEUE_CAPACITY <= n <= QUEUE_CAPACITY_MAX,
{
    let frames: u64 = (fps as u64 * QUEUE_CUSHION_MS + 500) / 1000;
    if frames < QUEUE_CAPACITY as u64 {
        QUEUE_CAPACITY
    } else if frames > QUEUE_CAPACITY_MAX as u64 {
        QUEUE_CAPACITY_MAX
    } else {
        frames as usize
    }
}

/// Membership in the list of accepted frame rates.
pub open spec fn fps_allowed(fps: u32) -> bool {
    fps == 30 || fps == 60 || fps == 90
}

pub fn is_allowed_fps(fps: u32) -> (r: bool)
    ensures
        r == ALLOWED_FPS@.contains(fps),
        r == fps_allowed(fps),
{
    let rates: [u32; 3] = ALLOWED_FPS;
    assert(ALLOWED_FPS@ == seq![30u32, 60, 90]);
    assert(ALLOWED_FPS@[0] == 30 && ALLOWED_FPS@[1] == 60 && ALLOWED_FPS@[2] == 90);
    fps == rates[0] || fps == rates[1] || fps == rates[2]
}

/// A tenth of a bit per pixel, kept within the accepted bit rates.
pub open spec fn bitrate(width: int, height: int, fps: int) -> int {
    clamped(width * height * fps / 10, MIN_BITRATE as int, MAX_BITRATE as int)
}

pub fn default_bitrate(width: u32, height: u32, fps: u32) -> (r: u32)
    requires
        width * height * fps <= u64::MAX,
    ensures
        r == bitrate(width as int, height as int, fps as int),
        MIN_BITRATE <= r <= MAX_BITRATE,
{
    assert(0 <= width * height <= u32::MAX * u32::MAX) by (nonlinear_arith)
        requires
            0 <= width <= u32::MAX,
            0 <= height <= u32::MAX,
    ;
    assert(width * height * fps >= 0) by (nonlinear_arith)
        requires
            0 <= width * height,
            0 <= fps,
    ;
    let raw: u64 = (width as u64) * (height as u64) * (fps as u64) / 10;
    if raw < MIN_BITRATE as u64 {
        MIN_BITRATE
    } else if raw > MAX_BITRATE as u64 {
        MAX_BITRATE
    } else {
        raw as u32
    }
}

/// The capture size limit: the width and the height each have their own bound.
pub open spec fn within_capture_limit(width: u32, height: u32) -> bool {
    width <= MAX_CAPTURE_WIDTH && height <= MAX_CAPTURE_HEIGHT
}

/// Every accepted frame rate gets a queue that bridges the cushion: its capacity is at least
/// the cushion's frames, and at least the base capacity.
pub proof fn law_queue_bridges_the_cushion(fps: u32)
    requires
        fps_allowed(fps),
    ensures
        queue_capacity(fps as int) * 1000 + 500 >= fps * QUEUE_CUSHION_MS,
        queue_capacity(fps as int) >= QUEUE_CAPACITY,
{
}

/// A higher frame rate never gets a smaller queue.
pub proof fn law_queue_capacity_is_monotonic(slow: u32, fast: u32)
    requires
        slow <= fast,
    ensures
        queue_capacity(slow as int) <= queue_capacity(fast as int),
{
}

/// More pixels or more frames never lower the automatic bit rate.
pub proof fn law_bitrate_is_monotonic(
    width: int,
    height: int,
    fps: int,
    wider: int,
    taller: int,
    faster: int,
)
    requires
        0 <= width <= wider,
        0 <= height <= taller,
        0 <= fps <= faster,
    ensures
        bitrate(width, height, fps) <= bitrate(wider, taller, faster),
{
    assert(width * height * fps <= wider * taller * faster) by (nonlinear_arith)
        requires
            0 <= width <= wider,
            0 <= height <= taller,
            0 <= fps <= faster,
    {
        assert(width * height <= wider * taller);
        assert(0 <= width * height);
    }
}

/// The queue holds the frames of the cushion, to the nearest one, and never fewer or more than its
/// bounds allow.
pub proof fn law_queue_holds_the_cushion(fps: u32)
    ensures
        8 <= queue_capacity(fps as int) <= 40,
        8 < queue_capacity(fps as int) ==> queue_capacity(fps as int) * 1000 <= fps * 267 + 500,
        queue_capacity(fps as int) < 40 ==> fps * 267 < queue_capacity(fps as int) * 1000 + 500,
{
}

/// The automatic bit rate spends a tenth of a bit on a pixel, unless that lies outside its bounds.
pub proof fn law_bitrate_is_a_tenth_of_a_bit(width: int, height: int, fps: int)
    requires
        0 <= width,
        0 <= height,
        0 <= fps,
    ensures
        ({
            let bits = bitrate(width, height, fps);
            &&& 4_000_000 <= bits <= 20_000_000
            &&& 4_000_000 < bits ==> bits * 10 <= width * height * fps
            &&& bits < 20_000_000 ==> width * height * fps < bits * 10 + 10
        }),
{
}

/// A number that is moved into a range lies in it, and one that lies there stays.
pub proof fn law_clamped_is_the_nearest(x: int, lo: int, hi: int)
    requires
        lo <= hi,
    ensures
        lo <= clamped(x, lo, hi) <= hi,
        lo <= x <= hi ==> clamped(x, lo, hi) == x,
        x < lo ==> clamped(x, lo, hi) == lo,
        x > hi ==> clamped(x, lo, hi) == hi,
{
}

/// The capture limit is one of the width and one of the height; the two are not exchanged.
pub proof fn law_capture_limit_has_two_bounds(width: u32, height: u32)
    ensures
        within_capture_limit(width, height) ==> width <= 2560 && height <= 1600,
        width <= 2560 && height <= 1600 ==> within_capture_limit(width, height),
{
}

} // verus!
