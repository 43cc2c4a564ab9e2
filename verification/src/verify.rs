//! Looking at a finished file: its samples are read back one by one.
//!
//! A file that was cut short still has a size. Counting its frames and following its time line
//! shows whether it can be played.

use crate::counter::{bump, later, next_count, sooner, wrapped};
use crate::encoder::media_types::{packed, unpack2};
use crate::engine::ms_of;
use crate::error::{MediaError, MediaResult};
use crate::scheduler::slot_offset;
use crate::time::quotient_toward_zero;
use vstd::prelude::*;

verus! {

#[derive(Debug, Clone, Copy, PartialEq, Eq, Structural)]
pub struct Mp4Probe {
    pub frame_count: u64,
    /// Size that the file records.
    pub native_width: u32,
    pub native_height: u32,
    /// Size of the decoded frames, which may be padded.
    pub width: u32,
    pub height: u32,
    /// End of the last sample.
    pub duration_100ns: i64,
    /// Places where two neighbouring time stamps lie more than two frame intervals apart.
    pub gaps: u64,
}

impl Mp4Probe {
    pub fn duration_ms(&self) -> (ms: i64)
        ensures
            ms == quotient_toward_zero(self.duration_100ns as int, 10_000),
    {
        ms_of(self.duration_100ns)
    }
}

#[derive(Debug, Clone, Copy, PartialEq, Eq, Structural)]
pub struct AudioProbe {
    pub sample_count: u64,
    /// End of the last sample.
    pub last_end_100ns: i64,
    pub sample_rate: u32,
    pub channels: u16,
}

impl AudioProbe {
    pub fn duration_ms(&self) -> (ms: i64)
        ensures
            ms == quotient_toward_zero(self.last_end_100ns as int, 10_000),
    {
        ms_of(self.last_end_100ns)
    }
}

/// What is known after some samples of the video were read.
#[derive(Debug, Clone, Copy, PartialEq, Eq, Structural)]
pub struct VideoScan {
    pub frame_tick: i64,
    pub frame_count: u64,
    /// Time stamp of the sample before.
    pub prev_ts: i64,
    pub last_end: i64,
    pub gaps: u64,
}

/// Length of one frame at the expected rate.
pub open spec fn tick_of(fps: u32) -> i64 {
    (10_000_000int / (if fps < 1 {
        1
    } else {
        fps as int
    })) as i64
}

/// A scan before its first sample.
pub open spec fn scan_start(fps: u32) -> VideoScan {
    VideoScan { frame_tick: tick_of(fps), frame_count: 0, prev_ts: 0, last_end: 0, gaps: 0 }
}

/// A scan after one more sample; one without a length counts as one frame long.
pub open spec fn scan_sample(s: VideoScan, ts: i64, duration: Option<i64>) -> VideoScan {
    let end = wrapped(
        ts + (match duration {
            Some(d) => d,
            None => s.frame_tick,
        }),
    );
    VideoScan {
        frame_tick: s.frame_tick,
        frame_count: next_count(s.frame_count),
        prev_ts: ts,
        last_end: if end > s.last_end {
            end
        } else {
            s.last_end
        },
        gaps: if s.frame_count > 0 && wrapped(ts - s.prev_ts) > s.frame_tick * 2 {
            next_count(s.gaps)
        } else {
            s.gaps
        },
    }
}

impl VideoScan {
    pub fn new(expected_fps: u32) -> (s: VideoScan)
        ensures
            s == scan_start(expected_fps),
            0 <= s.frame_tick <= 10_000_000,
    {
        let rate: u64 = if expected_fps < 1 {
            1
        } else {
            expected_fps as u64
        };
        proof {
            vstd::arithmetic::div_mod::lemma_div_is_ordered_by_denominator(
                10_000_000,
                1,
                rate as int,
            );
            vstd::arithmetic::div_mod::lemma_div_pos_is_pos(10_000_000, rate as int);
        }
        VideoScan {
            frame_tick: (10_000_000 / rate) as i64,
            frame_count: 0,
            prev_ts: 0,
            last_end: 0,
            gaps: 0,
        }
    }

    /// One more sample was read.
    pub fn sample(&mut self, ts: i64, duration: Option<i64>)
        requires
            0 <= old(self).frame_tick <= 10_000_000,
        ensures
            *final(self) == scan_sample(*old(self), ts, duration),
    {
        let length: i64 = match duration {
            Some(d) => d,
            None => self.frame_tick,
        };
        let end: i64 = later(ts, length);
        if self.frame_count > 0 && sooner(ts, self.prev_ts) > self.frame_tick * 2 {
            bump(&mut self.gaps);
        }
        self.prev_ts = ts;
        if end > self.last_end {
            self.last_end = end;
        }
        bump(&mut self.frame_count);
    }

    /// The end of the file. A file without a frame is damaged, or was never completed.
    pub fn finish(&self, path: &str, native_size: u64, decoded_size: u64) -> (r: MediaResult<
        Mp4Probe,
    >)
        ensures
            r is Ok <==> self.frame_count > 0,
            r matches Ok(p) ==> {
                &&& p.frame_count == self.frame_count
                &&& packed(p.native_width, p.native_height) == native_size
                &&& packed(p.width, p.height) == decoded_size
                &&& p.duration_100ns == self.last_end
                &&& p.gaps == self.gaps
            },
            r matches Err(e) ==> (e matches MediaError::Internal(text) && text@ == path@
                + " 解码出 0 帧（文件损坏或未正确 finalize）"@),
    {
        if self.frame_count == 0 {
            return Err(
                MediaError::Internal(
                    path.to_owned().concat(" 解码出 0 帧（文件损坏或未正确 finalize）"),
                ),
            );
        }
        let (native_width, native_height): (u32, u32) = unpack2(native_size);
        let (width, height): (u32, u32) = unpack2(decoded_size);
        Ok(
            Mp4Probe {
                frame_count: self.frame_count,
                native_width,
                native_height,
                width,
                height,
                duration_100ns: self.last_end,
                gaps: self.gaps,
            },
        )
    }
}

/// A file must exist before it is read.
pub fn check_exists(path: &str, exists: bool) -> (r: MediaResult<()>)
    ensures
        r is Ok <==> exists,
        r matches Err(e) ==> (e matches MediaError::Internal(text) && text@ == "产物不存在："@ + path@),
{
    if exists {
        Ok(())
    } else {
        Err(MediaError::Internal(String::from_str("产物不存在：").concat(path)))
    }
}

/// What is known after some samples of the audio were read.
#[derive(Debug, Clone, Copy, PartialEq, Eq, Structural)]
pub struct AudioScan {
    pub sample_count: u64,
    pub last_end: i64,
}

impl AudioScan {
    pub fn new() -> (s: AudioScan)
        ensures
            s == (AudioScan { sample_count: 0, last_end: 0 }),
    {
        AudioScan { sample_count: 0, last_end: 0 }
    }

    /// One more sample was read; one without a length has none.
    pub fn sample(&mut self, ts: i64, duration: Option<i64>)
        ensures
            ({
                let end = wrapped(
                    ts + (match duration {
                        Some(d) => d,
                        None => 0,
                    }),
                );
                *final(self) == (AudioScan {
                    sample_count: next_count(old(self).sample_count),
                    last_end: if end > old(self).last_end {
                        end
                    } else {
                        old(self).last_end
                    },
                })
            }),
    {
        let length: i64 = match duration {
            Some(d) => d,
            None => 0,
        };
        let end: i64 = later(ts, length);
        if end > self.last_end {
            self.last_end = end;
        }
        bump(&mut self.sample_count);
    }

    /// The end of the track. Values that the file does not record count as 0.
    pub fn finish(&self, sample_rate: Option<u32>, channels: Option<u32>) -> (p: AudioProbe)
        ensures
            p.sample_count == self.sample_count,
            p.last_end_100ns == self.last_end,
            p.sample_rate == (match sample_rate {
                Some(n) => n,
                None => 0,
            }),
            p.channels == (match channels {
                Some(n) => n as u16,
                None => 0,
            }),
    {
        AudioProbe {
            sample_count: self.sample_count,
            last_end_100ns: self.last_end,
            sample_rate: match sample_rate {
                Some(n) => n,
                None => 0,
            },
            channels: match channels {
                Some(n) => #[verifier::truncate]
                (n as u16),
                None => 0,
            },
        }
    }
}

/// The scan of a file that holds the slots `0..n` of a recording.
pub open spec fn scan_of_slots(fps: u32, n: nat) -> VideoScan
    decreases n,
{
    if n == 0 {
        scan_start(fps)
    } else {
        let i = n - 1;
        scan_sample(
            scan_of_slots(fps, i as nat),
            slot_offset(i, fps as int) as i64,
            Some((slot_offset(n as int, fps as int) - slot_offset(i, fps as int)) as i64),
        )
    }
}

/// A file that holds every slot of a recording reads back as many frames as were scheduled, as
/// long as they were scheduled for, without a gap. The frame rate has to leave a frame some
/// length.
pub proof fn law_complete_recording_has_no_gaps(fps: u32, n: nat)
    requires
        0 < fps <= 10_000_000,
        n <= u64::MAX,
        slot_offset(n as int, fps as int) <= i64::MAX,
    ensures
        scan_of_slots(fps, n).frame_count == n,
        scan_of_slots(fps, n).gaps == 0,
        scan_of_slots(fps, n).last_end == slot_offset(n as int, fps as int),
        n > 0 ==> scan_of_slots(fps, n).prev_ts == slot_offset(n - 1, fps as int),
        scan_of_slots(fps, n).frame_tick == 10_000_000int / fps as int,
    decreases n,
{
    if n == 0 {
        assert(slot_offset(0, fps as int) == 0) by (nonlinear_arith)
            requires
                fps > 0,
                slot_offset(0, fps as int) == 0int / fps as int,
        ;
        vstd::arithmetic::div_mod::lemma_div_pos_is_pos(10_000_000, fps as int);
        vstd::arithmetic::div_mod::lemma_div_is_ordered_by_denominator(10_000_000, 1, fps as int);
    } else {
        let i = (n - 1) as nat;
        crate::scheduler::lemma_slot_offset_is_monotonic(i as int, n as int, fps as int);
        law_complete_recording_has_no_gaps(fps, i);
        if i > 0 {
            let before = (i - 1) as int;
            crate::scheduler::law_slot_lengths_differ_by_one_tick(before, fps as int);
            crate::scheduler::lemma_slot_offset_is_monotonic(before, i as int, fps as int);
            assert(10_000_000int / fps as int >= 1) by (nonlinear_arith)
                requires
                    0 < fps <= 10_000_000,
            ;
        }
    }
}

/// The length of a frame at a rate is the whole ticks of it.
pub proof fn law_frame_ticks_fit_the_rate(fps: u32)
    requires
        fps > 0,
    ensures
        tick_of(fps) * fps <= 10_000_000 < (tick_of(fps) + 1) * fps,
{
    let a = 10_000_000int;
    let b = fps as int;
    vstd::arithmetic::div_mod::lemma_fundamental_div_mod(a, b);
    vstd::arithmetic::div_mod::lemma_mod_bound(a, b);
    vstd::arithmetic::div_mod::lemma_div_pos_is_pos(a, b);
    vstd::arithmetic::div_mod::lemma_div_is_ordered_by_denominator(a, 1, b);
    let q = a / b;
    let r = a % b;
    assert(q * b <= a < (q + 1) * b) by (nonlinear_arith)
        requires
            a == b * q + r,
            0 <= r < b,
    ;
}

/// Every sample counts, the end of the file is the latest end of a sample, and a gap is where two
/// neighbours lie more than two frames apart; the first sample has no neighbour before it.
pub proof fn law_samples_extend_the_scan(s: VideoScan, ts: i64, duration: Option<i64>)
    requires
        s.frame_count < u64::MAX,
        s.gaps < u64::MAX,
        i64::MIN <= ts - s.prev_ts <= i64::MAX,
        i64::MIN <= ts + s.frame_tick <= i64::MAX,
        duration matches Some(d) ==> i64::MIN <= ts + d <= i64::MAX,
    ensures
        ({
            let next = scan_sample(s, ts, duration);
            &&& next.frame_count == s.frame_count + 1
            &&& next.frame_tick == s.frame_tick
            &&& next.prev_ts == ts
            &&& next.last_end >= s.last_end
            &&& duration matches Some(d) ==> {
                &&& next.last_end >= ts + d
                &&& next.last_end == s.last_end || next.last_end == ts + d
            }
            &&& duration is None ==> {
                &&& next.last_end >= ts + s.frame_tick
                &&& next.last_end == s.last_end || next.last_end == ts + s.frame_tick
            }
            &&& s.frame_count == 0 ==> next.gaps == s.gaps
            &&& s.frame_count > 0 && ts > s.prev_ts + 2 * s.frame_tick ==> next.gaps == s.gaps + 1
            &&& ts <= s.prev_ts + 2 * s.frame_tick ==> next.gaps == s.gaps
        }),
{
}

/// A scan starts with nothing counted.
pub proof fn law_scans_start_empty(fps: u32)
    ensures
        scan_start(fps).frame_count == 0,
        scan_start(fps).gaps == 0,
        scan_start(fps).last_end == 0,
        scan_start(fps).frame_tick == tick_of(fps),
{
}

} // verus!
