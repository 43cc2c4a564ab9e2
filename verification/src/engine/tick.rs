//! The tick loop: a constant frame rate out of frames that come when they like.
//!
//! The loop is driven from outside: each turn hands in the clock, the stop flag and a capture
//! error if there is one, and gets back what to do. A slot takes the newest captured frame, or
//! repeats the last one, and goes into a bounded queue. Where the queue is full the oldest frame
//! is dropped, so that the queue always holds the newest ones.

use super::{count_drop, kept_error_text, record_elapsed, recreate_error, with_drop, Metrics, StopReason};
use crate::capture::frame::WgcFrame;
use crate::channel::{
    bounded_frames, frame_capacity, joined_frames, same_receiver, take_oldest, try_send, Answer, FrameQueue,
    Outlet, QueueEvent, SendOutcome,
};
use crate::consts::{
    fps_allowed, queue_capacity, queue_capacity_for, CAPTURE_STALL_WARN_SECS,
    CAPTURE_STALL_WARN_THROTTLE_SECS, DEGRADED_WINDOW_SECS, MAX_RECORDING_SECS,
    STARTUP_WINDOW_SECS,
};
use crate::convert::Nv12Image;
use crate::counter::{bump, next_count};
use crate::disk::below_floor;
use crate::error::{MediaError, MediaResult};
use crate::scheduler::{
    slot_deadline_ns, slot_duration_mf, slot_offset, slot_offset_ns, slot_time_mf,
};
use crate::text::{decimal, push_decimal};
use crate::time::{converted_once, MfTime100ns, Srt100ns, Timeline};
use std::sync::Arc;
use vstd::prelude::*;

verus! {

/// A slot on its way to the encoder.
pub struct TickItem {
    pub nv12: Arc<Nv12Image>,
    pub pts: MfTime100ns,
    pub duration: MfTime100ns,
    pub sequence: u64,
    /// The frame is the one of the slot before.
    pub duplicate: bool,
    /// A frame was dropped right before this one.
    pub discontinuity: bool,
}

/// The queue between the tick loop and the encoder, as large as the frame rate asks for. What the
/// loop sends is what the encoder receives, and to make room the loop takes frames out of that
/// same queue.
pub fn frame_queue(fps: u32) -> (r: (FrameQueue, crossbeam_channel::Receiver<TickItem>))
    ensures
        frame_capacity(r.0.outlet.sender()) == queue_capacity(fps as int),
        r.0.wf(),
        joined_frames(r.0.outlet.sender(), r.1),
        r.0.oldest == r.1,
        r.0.log() == Seq::<QueueEvent<TickItem>>::empty(),
{
    let (tx, rx) = bounded_frames(queue_capacity_for(fps));
    let oldest: crossbeam_channel::Receiver<TickItem> = same_receiver(&rx);
    (FrameQueue { outlet: Outlet::new(tx), oldest }, rx)
}

/// How many slots were sent and how many frames were dropped up to some time.
#[derive(Debug, Clone, Copy, PartialEq, Eq, Structural)]
pub struct DropMark {
    pub at_ns: u64,
    pub scheduled: u64,
    /// Frames dropped after the startup window.
    pub dropped: u64,
}

/// The marks that are still needed at `now`: the last one that is as old as the window is long
/// starts the window, and those before it are given up.
pub open spec fn trimmed(marks: Seq<DropMark>, now: int) -> Seq<DropMark>
    decreases marks.len(),
{
    if marks.len() > 1 && passed(now, marks[1].at_ns as int, DEGRADED_WINDOW_SECS as int) {
        trimmed(marks.remove(0), now)
    } else {
        marks
    }
}

/// The marks after a new one was set.
pub open spec fn with_mark(marks: Seq<DropMark>, mark: DropMark) -> Seq<DropMark> {
    trimmed(marks.push(mark), mark.at_ns as int)
}

/// The mark that the counters of a recording give.
pub open spec fn mark_of(m: Metrics, now: u64) -> DropMark {
    DropMark {
        at_ns: now,
        scheduled: m.frames_scheduled,
        dropped: m.frames_dropped_backpressure,
    }
}

/// The window reaches back ten seconds and no further than to the last mark before that; a
/// recording that is younger is looked at as a whole.
pub proof fn law_window_is_ten_seconds_long(marks: Seq<DropMark>, now: int)
    requires
        marks.len() > 0,
    ensures
        trimmed(marks, now).len() > 0,
        trimmed(marks, now)[0] == marks[0] || passed(
            now,
            trimmed(marks, now)[0].at_ns as int,
            DEGRADED_WINDOW_SECS as int,
        ),
        trimmed(marks, now).len() > 1 ==> !passed(
            now,
            trimmed(marks, now)[1].at_ns as int,
            DEGRADED_WINDOW_SECS as int,
        ),
        trimmed(marks, now).last() == marks.last(),
    decreases marks.len(),
{
    if marks.len() > 1 && passed(now, marks[1].at_ns as int, DEGRADED_WINDOW_SECS as int) {
        law_window_is_ten_seconds_long(marks.remove(0), now);
    }
}

/// One second in nanoseconds.
pub const NS_PER_SEC: u64 = 1_000_000_000;

/// The loop never sleeps longer than this, so that a stop request is heard.
pub const MAX_SLEEP_NS: u64 = 5_000_000;

/// What the loop is told at each turn.
pub struct TickInput {
    /// Time since the first frame.
    pub now_ns: u64,
    pub stop_requested: bool,
    /// The capture broke down.
    pub fatal: Option<MediaError>,
    /// Milliseconds since the capture delivered anything.
    pub idle_ms: u64,
}

/// What the loop wants done.
pub enum TickAction {
    /// The recording is over.
    Finish(StopReason),
    /// The recording cannot go on.
    Fail(MediaError),
    /// Ask for the free disk space and answer with [`TickLoop::disk_checked`].
    CheckDisk,
    /// Wait this many nanoseconds.
    Sleep(u64),
    /// Fill the next slot with [`TickLoop::fill_slot`].
    Emit,
}

/// The clocks and the position of the loop.
#[verifier::ext_equal]
pub struct TickState {
    pub fps: int,
    pub max_duration_secs: int,
    /// Number of the next slot.
    pub n: int,
    pub last_stall_check: int,
    pub last_stall_warn: int,
    pub last_disk_check: int,
    pub last_drop_log: int,
    /// The frame after the next drop is marked.
    pub discontinuity: bool,
    /// One mark per second, as far back as the window of the degraded flag reaches.
    pub marks: Seq<DropMark>,
}

/// A time span has passed since `last`.
pub open spec fn passed(now: int, last: int, secs: int) -> bool {
    now - last >= secs * 1_000_000_000
}

/// The second of the recording is over.
pub open spec fn stall_check_due(s: TickState, now: int) -> bool {
    passed(now, s.last_stall_check, 1)
}

/// A capture silence of this length is noted.
pub open spec fn stalled(idle_ms: int) -> bool {
    idle_ms >= CAPTURE_STALL_WARN_SECS * 1000
}

/// A warning about a silent capture is due.
pub open spec fn stall_warning_due(s: TickState, now: int, idle_ms: int) -> bool {
    stall_check_due(s, now) && stalled(idle_ms) && passed(
        now,
        s.last_stall_warn,
        CAPTURE_STALL_WARN_THROTTLE_SECS as int,
    )
}

/// Once per second: the elapsed time, the audio peak of the second that ended, the longest silence
/// of the capture, and the counters at the start of the window.
pub open spec fn housekept(m: Metrics, now: u64, idle_ms: u64, marks: Seq<DropMark>) -> Metrics {
    let window = with_mark(marks, mark_of(m, now))[0];
    Metrics {
        elapsed_100ns: now / 100,
        window_scheduled: window.scheduled,
        window_dropped: window.dropped,
        audio_peak_last_sec: m.audio_peak_1s,
        audio_peak_1s: 0,
        capture_idle_ms_max: if idle_ms > m.capture_idle_ms_max {
            idle_ms
        } else {
            m.capture_idle_ms_max
        },
        capture_idle_checks: if stalled(idle_ms as int) {
            next_count(m.capture_idle_checks)
        } else {
            m.capture_idle_checks
        },
        ..m
    }
}

/// The clocks after the housekeeping of a turn.
pub open spec fn after_housekeeping(s: TickState, m: Metrics, now: u64, idle_ms: int) -> TickState {
    TickState {
        marks: if stall_check_due(s, now as int) {
            with_mark(s.marks, mark_of(m, now))
        } else {
            s.marks
        },
        last_stall_check: if stall_check_due(s, now as int) {
            now as int
        } else {
            s.last_stall_check
        },
        last_stall_warn: if stall_warning_due(s, now as int, idle_ms) {
            now as int
        } else {
            s.last_stall_warn
        },
        ..s
    }
}

/// The slot `n` is more than one slot length late.
pub open spec fn late(s: TickState, now: int) -> bool {
    now > slot_offset_ns(s.n, s.fps) + 1_000_000_000int / s.fps
}

/// The running tick loop.
pub struct TickLoop {
    fps: u32,
    max_duration_secs: u64,
    n: u64,
    width: u32,
    height: u32,
    timeline: Timeline,
    last_frame: Arc<Nv12Image>,
    discontinuity: bool,
    last_stall_check: u64,
    last_stall_warn: u64,
    last_disk_check: u64,
    last_drop_log: u64,
    marks: Vec<DropMark>,
}

/// `now - last`, or zero where the clock went back.
fn since(now: u64, last: u64) -> (d: u64)
    ensures
        d == if now >= last {
            now - last
        } else {
            0
        },
{
    now.saturating_sub(last)
}

impl TickLoop {
    pub closed spec fn state(&self) -> TickState {
        TickState {
            fps: self.fps as int,
            max_duration_secs: self.max_duration_secs as int,
            n: self.n as int,
            last_stall_check: self.last_stall_check as int,
            last_stall_warn: self.last_stall_warn as int,
            last_disk_check: self.last_disk_check as int,
            last_drop_log: self.last_drop_log as int,
            discontinuity: self.discontinuity,
            marks: self.marks@,
        }
    }

    pub closed spec fn timeline_view(&self) -> Timeline {
        self.timeline
    }

    /// The frame that is repeated where no new one came.
    pub closed spec fn held_frame(&self) -> Arc<Nv12Image> {
        self.last_frame
    }

    /// The size that every frame must have.
    pub closed spec fn size(&self) -> (u32, u32) {
        (self.width, self.height)
    }

    pub open spec fn wf(&self) -> bool {
        &&& fps_allowed(self.state().fps as u32)
        &&& 0 < self.state().fps <= 90
        &&& 0 < self.state().max_duration_secs <= MAX_RECORDING_SECS
        &&& 0 <= self.state().n <= (MAX_RECORDING_SECS + 1) * self.state().fps
        &&& self.state().marks.len() > 0
    }

    /// The next slot can be filled: the recording has not reached its limit.
    pub open spec fn slot_due(&self) -> bool {
        self.state().n < (MAX_RECORDING_SECS + 1) * self.state().fps
    }

    /// Everything but the clocks is as it was.
    pub open spec fn same_stream(&self, before: &TickLoop) -> bool {
        &&& self.timeline_view() == before.timeline_view()
        &&& self.held_frame() == before.held_frame()
        &&& self.size() == before.size()
    }

    /// Starts the loop at time `now_ns` after the first frame, which is `first`, taken at `t0`.
    pub fn new(
        fps: u32,
        max_duration_secs: u64,
        t0: Srt100ns,
        first: Nv12Image,
        width: u32,
        height: u32,
        now_ns: u64,
    ) -> (tick: TickLoop)
        requires
            fps_allowed(fps),
            0 < max_duration_secs <= MAX_RECORDING_SECS,
        ensures
            tick.wf(),
            tick.state() == (TickState {
                fps: fps as int,
                max_duration_secs: max_duration_secs as int,
                n: 0,
                last_stall_check: now_ns as int,
                last_stall_warn: now_ns as int,
                last_disk_check: now_ns as int,
                last_drop_log: now_ns as int,
                discontinuity: false,
                marks: seq![DropMark { at_ns: now_ns, scheduled: 0, dropped: 0 }],
            }),
            tick.timeline_view().start() == t0.0,
            tick.timeline_view().last() is None,
            tick.timeline_view().anomaly_count() == 0,
            tick.held_frame() == Arc::new(first),
            tick.size() == (width, height),
    {
        let marks: Vec<DropMark> = vec![DropMark { at_ns: now_ns, scheduled: 0, dropped: 0 }];
        TickLoop {
            fps,
            max_duration_secs,
            n: 0,
            width,
            height,
            timeline: Timeline::new(t0),
            last_frame: Arc::new(first),
            discontinuity: false,
            last_stall_check: now_ns,
            last_stall_warn: now_ns,
            last_disk_check: now_ns,
            last_drop_log: now_ns,
            marks,
        }
    }

    /// Sets a mark and gives up those that the window no longer needs. Gives the mark that the
    /// window starts with.
    fn set_mark(&mut self, mark: DropMark) -> (start: DropMark)
        requires
            old(self).wf(),
        ensures
            final(self).wf(),
            final(self).same_stream(old(self)),
            final(self).state() == (TickState {
                marks: with_mark(old(self).state().marks, mark),
                ..old(self).state()
            }),
            start == with_mark(old(self).state().marks, mark)[0],
    {
        let ghost wanted = with_mark(self.marks@, mark);
        self.marks.push(mark);
        proof {
            law_window_is_ten_seconds_long(self.marks@, mark.at_ns as int);
        }
        while self.marks.len() > 1 && since(mark.at_ns, self.marks[1].at_ns)
            >= DEGRADED_WINDOW_SECS * NS_PER_SEC
            invariant
                self.marks.len() > 0,
                wanted.len() > 0,
                trimmed(self.marks@, mark.at_ns as int) == wanted,
                self.same_stream(old(self)),
                self.state() == (TickState { marks: self.marks@, ..old(self).state() }),
            decreases self.marks.len(),
        {
            let _ = self.marks.remove(0);
        }
        self.marks[0]
    }

    /// One turn of the loop. In this order: a stop request ends the recording, the length limit
    /// ends it, a broken capture fails it; once per second the books are kept; every two seconds
    /// the disk is checked; then the loop waits for the next slot or fills it. The flag tells
    /// that a warning about a silent capture is due.
    pub fn turn(&mut self, input: TickInput, metrics: &mut Metrics) -> (r: (TickAction, bool))
        requires
            old(self).wf(),
        ensures
            final(self).wf(),
            final(self).same_stream(old(self)),
            r.0 matches TickAction::Sleep(ns) ==> 0 < ns <= MAX_SLEEP_NS,
            r.0 matches TickAction::Sleep(ns) ==> input.now_ns + ns <= slot_offset_ns(
                old(self).state().n,
                old(self).state().fps,
            ),
            r.0 is Emit ==> slot_offset_ns(old(self).state().n, old(self).state().fps)
                <= input.now_ns < old(self).state().max_duration_secs * 1_000_000_000,
            input.stop_requested <==> r.0 == TickAction::Finish(StopReason::UserRequested),
            r.0 is Finish ==> input.stop_requested || input.now_ns
                >= old(self).state().max_duration_secs * 1_000_000_000,
            r.0 is Fail ==> input.fatal is Some,
            ({
                let s = old(self).state();
                let now = input.now_ns as int;
                let idle = input.idle_ms as int;
                let kept = if stall_check_due(s, now) {
                    housekept(*old(metrics), input.now_ns, input.idle_ms, s.marks)
                } else {
                    *old(metrics)
                };
                let clocks = after_housekeeping(s, *old(metrics), input.now_ns, idle);
                if input.stop_requested {
                    &&& r.0 == TickAction::Finish(StopReason::UserRequested)
                    &&& !r.1
                    &&& final(self).state() == s
                    &&& *final(metrics) == (Metrics {
                        elapsed_100ns: input.now_ns / 100,
                        ..*old(metrics)
                    })
                } else if now / 1_000_000_000 >= s.max_duration_secs {
                    &&& r.0 == TickAction::Finish(StopReason::DurationLimit)
                    &&& !r.1
                    &&& final(self).state() == s
                    &&& *final(metrics) == (Metrics {
                        elapsed_100ns: input.now_ns / 100,
                        ..*old(metrics)
                    })
                } else if input.fatal is Some {
                    &&& r.0 matches TickAction::Fail(MediaError::Internal(text)) && text@
                        == kept_error_text(input.fatal->0)
                    &&& !r.1
                    &&& final(self).state() == s
                    &&& *final(metrics) == (Metrics {
                        elapsed_100ns: input.now_ns / 100,
                        ..*old(metrics)
                    })
                } else {
                    &&& r.1 == stall_warning_due(s, now, idle)
                    &&& final(self).state() == clocks
                    &&& if passed(now, s.last_disk_check, 2) {
                        &&& r.0 is CheckDisk
                        &&& *final(metrics) == kept
                    } else if now < slot_offset_ns(s.n, s.fps) {
                        &&& r.0 == TickAction::Sleep(
                            if slot_offset_ns(s.n, s.fps) - now < MAX_SLEEP_NS {
                                (slot_offset_ns(s.n, s.fps) - now) as u64
                            } else {
                                MAX_SLEEP_NS
                            },
                        )
                        &&& *final(metrics) == kept
                    } else {
                        &&& r.0 is Emit
                        &&& final(self).slot_due()
                        &&& *final(metrics) == (Metrics {
                            slots_late: if late(s, now) {
                                next_count(kept.slots_late)
                            } else {
                                kept.slots_late
                            },
                            ..kept
                        })
                    }
                }
            }),
    {
        let now: u64 = input.now_ns;
        if input.stop_requested {
            record_elapsed(metrics, now);
            return (TickAction::Finish(StopReason::UserRequested), false);
        }
        if now / NS_PER_SEC >= self.max_duration_secs {
            record_elapsed(metrics, now);
            return (TickAction::Finish(StopReason::DurationLimit), false);
        }
        if let Some(e) = input.fatal {
            record_elapsed(metrics, now);
            return (TickAction::Fail(recreate_error(&e)), false);
        }
        let mut warn: bool = false;
        if since(now, self.last_stall_check) >= NS_PER_SEC {
            self.last_stall_check = now;
            let start: DropMark = self.set_mark(
                DropMark {
                    at_ns: now,
                    scheduled: metrics.frames_scheduled,
                    dropped: metrics.frames_dropped_backpressure,
                },
            );
            metrics.window_scheduled = start.scheduled;
            metrics.window_dropped = start.dropped;
            record_elapsed(metrics, now);
            metrics.audio_peak_last_sec = metrics.audio_peak_1s;
            metrics.audio_peak_1s = 0;
            if input.idle_ms > metrics.capture_idle_ms_max {
                metrics.capture_idle_ms_max = input.idle_ms;
            }
            if input.idle_ms >= CAPTURE_STALL_WARN_SECS * 1000 {
                bump(&mut metrics.capture_idle_checks);
                if since(now, self.last_stall_warn) >= CAPTURE_STALL_WARN_THROTTLE_SECS
                    * NS_PER_SEC {
                    self.last_stall_warn = now;
                    warn = true;
                }
            }
        }
        if since(now, self.last_disk_check) >= 2 * NS_PER_SEC {
            return (TickAction::CheckDisk, warn);
        }
        proof {
            lemma_deadline_fits(self.n as int, self.fps as int);
        }
        let deadline: u64 = slot_deadline_ns(self.n, self.fps);
        if now < deadline {
            let wait: u64 = deadline - now;
            return (
                TickAction::Sleep(
                    if wait < MAX_SLEEP_NS {
                        wait
                    } else {
                        MAX_SLEEP_NS
                    },
                ),
                warn,
            );
        }
        proof {
            lemma_due_slot_is_early(self.n as int, self.fps as int, now as int);
        }
        if now > deadline + NS_PER_SEC / self.fps as u64 {
            bump(&mut metrics.slots_late);
        }
        (TickAction::Emit, warn)
    }

    /// Takes the answer to [`TickAction::CheckDisk`]. The recording ends where the free space is
    /// known and lies below the floor; an unanswered question is no reason to stop.
    pub fn disk_checked(
        &mut self,
        now_ns: u64,
        free: Option<u64>,
        floor: u64,
        metrics: &mut Metrics,
    ) -> (r: Option<StopReason>)
        requires
            old(self).wf(),
        ensures
            final(self).wf(),
            final(self).same_stream(old(self)),
            final(self).state() == (TickState { last_disk_check: now_ns as int, ..old(self).state()
            }),
            r == (if free matches Some(bytes) && bytes < floor {
                Some(StopReason::DiskSpaceLow)
            } else {
                None
            }),
            *final(metrics) == (if r is Some {
                Metrics { elapsed_100ns: now_ns / 100, ..*old(metrics) }
            } else {
                *old(metrics)
            }),
    {
        self.last_disk_check = now_ns;
        if below_floor(free, floor) {
            record_elapsed(metrics, now_ns);
            Some(StopReason::DiskSpaceLow)
        } else {
            None
        }
    }

    /// Tells whether the time stamp of a frame can be converted.
    pub fn can_take(&self, frame: &WgcFrame) -> (r: bool)
        ensures
            r == self.timeline_view().convertible(frame.srt),
    {
        self.timeline.can_convert(frame.srt)
    }

    /// Fills the next slot. A captured frame of another size ends the recording; one that lies
    /// more than two slot lengths ahead is not used; any other becomes the frame of the slot.
    /// Without a usable frame the last one is repeated.
    pub fn fill_slot(&mut self, candidate: Option<WgcFrame>, metrics: &mut Metrics) -> (r:
        MediaResult<TickItem>)
        requires
            old(self).wf(),
            old(self).slot_due(),
            candidate matches Some(f) ==> old(self).timeline_view().convertible(f.srt),
        ensures
            final(self).wf(),
            final(self).slot_due(),
            final(self).size() == old(self).size(),
            candidate is None ==> r is Ok && final(self).held_frame() == old(self).held_frame(),
            r matches Ok(item) ==> item.nv12 == final(self).held_frame(),
            r matches Ok(item) ==> !item.duplicate ==> (candidate matches Some(f) && *item.nv12
                == f.nv12),
            r matches Ok(item) ==> item.duplicate ==> item.nv12 == old(self).held_frame(),
            r is Err ==> candidate is Some,
            final(self).state() == (TickState {
                discontinuity: if r is Ok {
                    false
                } else {
                    old(self).state().discontinuity
                },
                ..old(self).state()
            }),
            ({
                let s = old(self).state();
                let pts = slot_offset(s.n, s.fps);
                let duration = slot_offset(s.n + 1, s.fps) - pts;
                match candidate {
                    Some(f) => if !fits(f.nv12, old(self).size()) {
                        &&& r matches Err(MediaError::Internal(text)) && text@ == resized_text(
                            old(self).size(),
                            f.nv12,
                        )
                        &&& *final(metrics) == *old(metrics)
                        &&& final(self).same_stream(old(self))
                    } else {
                        let mf = old(self).timeline_view().next_time(f.srt);
                        let ahead = mf > pts + 2 * duration;
                        let base = Metrics {
                            timestamp_anomalies: final(self).timeline_view().anomaly_count() as u64,
                            ..*old(metrics)
                        };
                        &&& converted_once(old(self).timeline_view(), f.srt, final(self).timeline_view())
                        &&& final(self).held_frame() == (if ahead {
                            old(self).held_frame()
                        } else {
                            Arc::new(f.nv12)
                        })
                        &&& r matches Ok(item) && slot_item(
                            item,
                            s,
                            final(self).held_frame(),
                            ahead,
                        )
                        &&& *final(metrics) == (if ahead {
                            Metrics {
                                frames_rejected_future: next_count(base.frames_rejected_future),
                                frames_duplicated: next_count(base.frames_duplicated),
                                ..base
                            }
                        } else {
                            base
                        })
                    },
                    None => {
                        &&& final(self).same_stream(old(self))
                        &&& r matches Ok(item) && slot_item(item, s, old(self).held_frame(), true)
                        &&& *final(metrics) == (Metrics {
                            frames_duplicated: next_count(old(metrics).frames_duplicated),
                            ..*old(metrics)
                        })
                    },
                }
            }),
    {
        proof {
            lemma_slot_times_fit(self.n as int, self.fps as int);
        }
        let pts: MfTime100ns = slot_time_mf(MfTime100ns(0), self.n, self.fps);
        let duration: MfTime100ns = slot_duration_mf(self.n, self.fps);
        let mut duplicate: bool = true;
        match candidate {
            Some(f) => {
                if f.nv12.width != self.width || f.nv12.height != self.height {
                    let mut text: String = String::from_str("录制中分辨率从 ");
                    push_decimal(&mut text, self.width as u64);
                    text.append("x");
                    push_decimal(&mut text, self.height as u64);
                    text.append(" 变为 ");
                    push_decimal(&mut text, f.nv12.width as u64);
                    text.append("x");
                    push_decimal(&mut text, f.nv12.height as u64);
                    text.append("，V0.1 不支持，已停止（文件保持可用）");
                    return Err(MediaError::Internal(text));
                }
                let mf: MfTime100ns = self.timeline.to_mf(f.srt);
                metrics.timestamp_anomalies = self.timeline.anomalies();
                if mf.0 > pts.0 + duration.0 * 2 {
                    bump(&mut metrics.frames_rejected_future);
                    bump(&mut metrics.frames_duplicated);
                } else {
                    self.last_frame = Arc::new(f.nv12);
                    duplicate = false;
                }
            },
            None => {
                bump(&mut metrics.frames_duplicated);
            },
        }
        let item: TickItem = TickItem {
            nv12: share(&self.last_frame),
            pts,
            duration,
            sequence: self.n,
            duplicate,
            discontinuity: self.discontinuity,
        };
        self.discontinuity = false;
        Ok(item)
    }

    /// Books what became of a slot. The flag tells that a log entry about dropped frames is due.
    pub fn settle(&mut self, report: SendReport, now_ns: u64, metrics: &mut Metrics) -> (log: bool)
        requires
            old(self).wf(),
            old(self).slot_due(),
        ensures
            final(self).wf(),
            final(self).same_stream(old(self)),
            log == drop_log_due(old(self).state(), report, now_ns as int),
            final(self).state() == after_send(old(self).state(), report, now_ns as int),
            *final(metrics) == settled(
                *old(metrics),
                report,
                in_startup(old(self).state()),
            ),
    {
        let startup: bool = self.n < self.fps as u64 * STARTUP_WINDOW_SECS;
        let mut log: bool = false;
        if let SendReport::Full { freed, resent } = report {
            if freed {
                count_drop(metrics, startup);
            }
            if !resent {
                count_drop(metrics, startup);
            }
            self.discontinuity = true;
            if since(now_ns, self.last_drop_log) >= NS_PER_SEC {
                self.last_drop_log = now_ns;
                log = true;
            }
        }
        bump(&mut metrics.frames_scheduled);
        self.n = self.n + 1;
        log
    }

    /// Sends a filled slot to the encoder and books it. A slot that the queue does not take is
    /// counted as dropped, or the encoder is gone. Drops are counted only where the queue had no
    /// room.
    pub fn send(
        &mut self,
        item: TickItem,
        queue: &mut FrameQueue,
        now_ns: u64,
        metrics: &mut Metrics,
    ) -> (log: bool)
        requires
            old(self).wf(),
            old(self).slot_due(),
            old(queue).wf(),
        ensures
            final(self).wf(),
            final(self).same_stream(old(self)),
            final(queue).wf(),
            final(queue).same_queue(old(queue)),
            exists|report: SendReport| #[trigger]
                settled(*old(metrics), report, in_startup(old(self).state())) == *final(metrics)
                    && final(self).state() == after_send(
                    old(self).state(),
                    report,
                    now_ns as int,
                ) && log == drop_log_due(old(self).state(), report, now_ns as int) && met_with(
                    report,
                    item,
                    old(queue).log(),
                    final(queue).log(),
                ),
    {
        let report: SendReport = offer(item, queue);
        self.settle(report, now_ns, metrics)
    }
}

/// `Arc::clone` makes a second handle on the same image.
#[verifier::external_body]
fn share(image: &Arc<Nv12Image>) -> (r: Arc<Nv12Image>)
    ensures
        r == *image,
{
    Arc::clone(image)
}

/// What became of a slot that was sent.
#[derive(Debug, Clone, Copy, PartialEq, Eq, Structural)]
pub enum SendReport {
    /// The queue took it.
    Queued,
    /// The queue was full: whether the oldest frame could be taken out, and whether the new one
    /// then fitted.
    Full { freed: bool, resent: bool },
    /// The encoder is gone.
    Closed,
}

/// Sends a slot. Where the queue is full, the oldest frame is taken out and the slot is sent once
/// more; never is the newest frame dropped for the sake of an older one.
fn offer(item: TickItem, queue: &mut FrameQueue) -> (report: SendReport)
    requires
        old(queue).wf(),
    ensures
        final(queue).wf(),
        final(queue).same_queue(old(queue)),
        met_with(report, item, old(queue).log(), final(queue).log()),
{
    match try_send(&mut queue.outlet, item) {
        SendOutcome::Sent => SendReport::Queued,
        SendOutcome::Closed(_) => SendReport::Closed,
        SendOutcome::Full(item) => {
            let out: Option<TickItem> = take_oldest(queue);
            let freed: bool = out.is_some();
            let again: SendOutcome<TickItem> = try_send(&mut queue.outlet, item);
            let resent: bool = match again {
                SendOutcome::Sent => true,
                _ => false,
            };
            assert(queue.log() =~= old(queue).log() + made_room(
                item,
                out,
                crate::channel::answer_of(again),
            ));
            SendReport::Full { freed, resent }
        },
    }
}

/// What is asked of a full queue: the slot was turned away, the oldest frame is taken out, and the
/// slot is offered once more.
pub open spec fn made_room(item: TickItem, out: Option<TickItem>, last: Answer) -> Seq<
    QueueEvent<TickItem>,
> {
    seq![
        QueueEvent::Offered(item, Answer::NoRoom),
        QueueEvent::Removed(out),
        QueueEvent::Offered(item, last),
    ]
}

/// The report tells what was asked of the queue and what it answered. Only a slot that found no
/// room makes a frame leave, and it is always offered again.
pub open spec fn met_with(
    report: SendReport,
    item: TickItem,
    before: Seq<QueueEvent<TickItem>>,
    after: Seq<QueueEvent<TickItem>>,
) -> bool {
    match report {
        SendReport::Queued => after == before.push(QueueEvent::Offered(item, Answer::Taken)),
        SendReport::Full { freed, resent } => exists|out: Option<TickItem>, last: Answer|
            after == before + #[trigger] made_room(item, out, last) && freed == (out is Some)
                && resent == (last is Taken),
        SendReport::Closed => after == before.push(QueueEvent::Offered(item, Answer::Gone)),
    }
}

/// The queue took the slot.
pub open spec fn accepted(report: SendReport) -> bool {
    match report {
        SendReport::Queued => true,
        SendReport::Full { freed, resent } => resent,
        SendReport::Closed => false,
    }
}

/// The counters after a slot was sent: it counts as scheduled, every frame that was lost on the
/// way counts as dropped.
pub open spec fn settled(m: Metrics, report: SendReport, startup: bool) -> Metrics {
    let dropped = match report {
        SendReport::Full { freed, resent } => {
            let first = if freed {
                with_drop(m, startup)
            } else {
                m
            };
            if resent {
                first
            } else {
                with_drop(first, startup)
            }
        },
        _ => m,
    };
    Metrics { frames_scheduled: next_count(dropped.frames_scheduled), ..dropped }
}

/// Frames that were dropped, in and after the startup window.
pub open spec fn dropped_frames(m: Metrics) -> int {
    m.frames_dropped_startup + m.frames_dropped_backpressure
}

/// No frame is lost unnoticed: the drops that are counted are the frame that was taken out to
/// make room and the slot that did not fit all the same. A slot that is not in the queue was
/// counted, unless the encoder is gone.
pub proof fn law_every_lost_frame_is_counted(m: Metrics, report: SendReport, startup: bool)
    requires
        m.frames_dropped_startup < u64::MAX - 1,
        m.frames_dropped_backpressure < u64::MAX - 1,
    ensures
        dropped_frames(settled(m, report, startup)) == dropped_frames(m) + (match report {
            SendReport::Full { freed, resent } => (if freed {
                1int
            } else {
                0
            }) + (if resent {
                0int
            } else {
                1
            }),
            _ => 0,
        }),
        !accepted(report) && !(report is Closed) ==> dropped_frames(settled(m, report, startup))
            > dropped_frames(m),
{
}

/// A log entry about dropped frames is due: at most one per second.
pub open spec fn drop_log_due(s: TickState, report: SendReport, now: int) -> bool {
    report is Full && passed(now, s.last_drop_log, 1)
}

/// The position after a slot was sent. The frame after a full queue is marked.
pub open spec fn after_send(s: TickState, report: SendReport, now: int) -> TickState {
    TickState {
        n: s.n + 1,
        discontinuity: s.discontinuity || report is Full,
        last_drop_log: if drop_log_due(s, report, now) {
            now
        } else {
            s.last_drop_log
        },
        ..s
    }
}

/// The next slot lies within the startup window. The window is a span of time, so it has more
/// slots at a higher frame rate.
pub open spec fn in_startup(s: TickState) -> bool {
    s.n < s.fps * STARTUP_WINDOW_SECS
}

/// The frame has the size of the recording.
pub open spec fn fits(image: Nv12Image, size: (u32, u32)) -> bool {
    image.width == size.0 && image.height == size.1
}

/// The message about a frame of another size.
pub open spec fn resized_text(size: (u32, u32), image: Nv12Image) -> Seq<char> {
    "录制中分辨率从 "@ + decimal(size.0 as nat) + "x"@ + decimal(size.1 as nat) + " 变为 "@ + decimal(
        image.width as nat,
    ) + "x"@ + decimal(image.height as nat) + "，V0.1 不支持，已停止（文件保持可用）"@
}

/// The item of the next slot.
pub open spec fn slot_item(
    item: TickItem,
    s: TickState,
    image: Arc<Nv12Image>,
    duplicate: bool,
) -> bool {
    &&& item.nv12 == image
    &&& item.pts.0 == slot_offset(s.n, s.fps)
    &&& item.duration.0 == slot_offset(s.n + 1, s.fps) - slot_offset(s.n, s.fps)
    &&& item.sequence == s.n
    &&& item.duplicate == duplicate
    &&& item.discontinuity == s.discontinuity
}

proof fn lemma_deadline_fits(n: int, fps: int)
    requires
        0 < fps <= 90,
        0 <= n <= (MAX_RECORDING_SECS + 1) * fps,
    ensures
        0 <= slot_offset_ns(n, fps) <= (MAX_RECORDING_SECS + 1) * 1_000_000_000,
{
    let top = 7201 * fps;
    assert(0 <= n * 1_000_000_000 / fps <= top * 1_000_000_000 / fps) by (nonlinear_arith)
        requires
            0 <= n <= top,
            fps > 0,
    ;
    assert(top * 1_000_000_000 == (7201 * 1_000_000_000int) * fps) by (nonlinear_arith)
        requires
            top == 7201 * fps,
    ;
    vstd::arithmetic::div_mod::lemma_div_multiples_vanish(7201 * 1_000_000_000int, fps);
    assert((7201 * 1_000_000_000int) * fps == fps * (7201 * 1_000_000_000int)) by (nonlinear_arith);
}

proof fn lemma_due_slot_is_early(n: int, fps: int, now: int)
    requires
        0 < fps <= 90,
        0 <= n,
        slot_offset_ns(n, fps) <= now,
        now < MAX_RECORDING_SECS * 1_000_000_000,
    ensures
        n < (MAX_RECORDING_SECS + 1) * fps,
{
    if n >= 7201 * fps {
        let top = 7201 * fps;
        assert(top * 1_000_000_000 / fps <= n * 1_000_000_000 / fps) by (nonlinear_arith)
            requires
                0 <= top <= n,
                fps > 0,
        ;
        assert(top * 1_000_000_000 == fps * (7201 * 1_000_000_000int)) by (nonlinear_arith)
            requires
                top == 7201 * fps,
        ;
        vstd::arithmetic::div_mod::lemma_div_multiples_vanish(7201 * 1_000_000_000int, fps);
        assert(false);
    }
}

proof fn lemma_slot_times_fit(n: int, fps: int)
    requires
        0 < fps <= 90,
        0 <= n < (MAX_RECORDING_SECS + 1) * fps,
    ensures
        0 <= slot_offset(n, fps) <= slot_offset(n + 1, fps) <= (MAX_RECORDING_SECS + 1)
            * 10_000_000,
{
    crate::scheduler::lemma_slot_offset_is_monotonic(n, n + 1, fps);
    let top = 7201 * fps;
    crate::scheduler::lemma_slot_offset_is_monotonic(n + 1, top, fps);
    assert(top * 10_000_000 == fps * (7201 * 10_000_000int)) by (nonlinear_arith)
        requires
            top == 7201 * fps,
    ;
    vstd::arithmetic::div_mod::lemma_div_multiples_vanish(7201 * 10_000_000int, fps);
}

/// The item of a slot says which slot it is and when it is shown: its number is that of the slot,
/// it starts at the last tick that is not behind the slot's exact time, and it lasts until the
/// next slot starts in the same way. It shows the picture it was given.
pub proof fn law_items_are_shown_in_their_slots(
    item: TickItem,
    s: TickState,
    image: Arc<Nv12Image>,
    duplicate: bool,
)
    requires
        slot_item(item, s, image, duplicate),
        s.fps > 0,
    ensures
        item.nv12 == image,
        item.sequence == s.n,
        item.duplicate == duplicate,
        item.discontinuity == s.discontinuity,
        item.pts.0 * s.fps <= s.n * 10_000_000 < (item.pts.0 + 1) * s.fps,
        (item.pts.0 + item.duration.0) * s.fps <= (s.n + 1) * 10_000_000 < (item.pts.0
            + item.duration.0 + 1) * s.fps,
{
    crate::scheduler::law_slots_start_on_time(s.n, s.fps);
    crate::scheduler::law_slots_start_on_time(s.n + 1, s.fps);
}

/// The slots of a recording follow each other without a gap: the item of a slot ends where that of
/// the next slot begins, and their numbers follow each other.
pub proof fn law_items_follow_each_other(
    item: TickItem,
    next: TickItem,
    s: TickState,
    report: SendReport,
    now: int,
    images: (Arc<Nv12Image>, Arc<Nv12Image>),
    duplicates: (bool, bool),
)
    requires
        slot_item(item, s, images.0, duplicates.0),
        slot_item(
            next,
            after_send((TickState { discontinuity: false, ..s }), report, now),
            images.1,
            duplicates.1,
        ),
    ensures
        item.pts.0 + item.duration.0 == next.pts.0,
        next.sequence == item.sequence + 1,
        next.discontinuity <==> report is Full,
{
}

/// The startup window is the first two seconds of the recording, at every frame rate.
pub proof fn law_startup_is_two_seconds(s: TickState)
    requires
        s.fps > 0,
        s.n >= 0,
    ensures
        in_startup(s) <==> slot_offset_ns(s.n, s.fps) < 2_000_000_000,
{
    crate::scheduler::law_slots_start_on_time(s.n, s.fps);
    let t = slot_offset_ns(s.n, s.fps);
    let n = s.n;
    let fps = s.fps;
    if n < fps * 2 {
        assert(t < 2_000_000_000) by (nonlinear_arith)
            requires
                t * fps <= n * 1_000_000_000,
                n < fps * 2,
                fps > 0,
        ;
    } else {
        assert(t >= 2_000_000_000) by (nonlinear_arith)
            requires
                n * 1_000_000_000 < (t + 1) * fps,
                n >= fps * 2,
                fps > 0,
        ;
    }
}

/// A span of seconds has passed when as many seconds have gone by as slots of whole seconds take.
pub proof fn law_seconds_pass_with_the_slots(secs: int, start: int, fps: int)
    requires
        fps > 0,
        secs >= 0,
    ensures
        passed(start + slot_offset_ns(secs * fps, fps), start, secs),
        !passed(start + slot_offset_ns(secs * fps, fps) - 1, start, secs),
{
    assert((secs * fps) * 1_000_000_000 == fps * (secs * 1_000_000_000)) by (nonlinear_arith);
    vstd::arithmetic::div_mod::lemma_div_multiples_vanish(secs * 1_000_000_000, fps);
}

/// A slot is late when the next one has begun before it is filled.
pub proof fn law_late_slots_missed_the_next(s: TickState, now: int)
    requires
        s.fps > 0,
        s.n >= 0,
    ensures
        late(s, now) ==> now >= slot_offset_ns(s.n + 1, s.fps),
        now > slot_offset_ns(s.n + 1, s.fps) ==> late(s, now),
{
    let fps = s.fps;
    let q: int = 1_000_000_000int / fps;
    let a = slot_offset_ns(s.n, fps);
    let b = slot_offset_ns(s.n + 1, fps);
    crate::scheduler::law_slots_start_on_time(s.n, fps);
    crate::scheduler::law_slots_start_on_time(s.n + 1, fps);
    vstd::arithmetic::div_mod::lemma_fundamental_div_mod(1_000_000_000, fps);
    vstd::arithmetic::div_mod::lemma_mod_bound(1_000_000_000, fps);
    let rem = 1_000_000_000int % fps;
    assert(b <= a + q + 1) by (nonlinear_arith)
        requires
            b * fps <= (s.n + 1) * 1_000_000_000,
            s.n * 1_000_000_000 < (a + 1) * fps,
            1_000_000_000 == fps * q + rem,
            0 <= rem < fps,
            fps > 0,
    ;
    assert(a + q <= b) by (nonlinear_arith)
        requires
            a * fps <= s.n * 1_000_000_000,
            (s.n + 1) * 1_000_000_000 < (b + 1) * fps,
            1_000_000_000 == fps * q + rem,
            0 <= rem,
            fps > 0,
    ;
}

/// A slot counts as scheduled once, whatever becomes of it, and drops are kept apart by when they
/// happen.
pub proof fn law_slots_count_once(m: Metrics, report: SendReport, startup: bool)
    requires
        m.frames_scheduled < u64::MAX,
    ensures
        settled(m, report, startup).frames_scheduled == m.frames_scheduled + 1,
        startup ==> settled(m, report, startup).frames_dropped_backpressure
            == m.frames_dropped_backpressure,
        !startup ==> settled(m, report, startup).frames_dropped_startup
            == m.frames_dropped_startup,
        settled(m, report, startup).frames_duplicated == m.frames_duplicated,
        settled(m, report, startup).frames_encoded == m.frames_encoded,
        settled(m, report, startup).frames_captured == m.frames_captured,
        settled(m, report, startup).window_scheduled == m.window_scheduled,
        settled(m, report, startup).window_dropped == m.window_dropped,
{
}

/// Sending a slot moves the loop on by one slot and touches no clock but that of the log.
pub proof fn law_sending_moves_on_by_one(s: TickState, report: SendReport, now: int)
    ensures
        ({
            let next = after_send(s, report, now);
            &&& next.n == s.n + 1
            &&& next.fps == s.fps && next.max_duration_secs == s.max_duration_secs
            &&& next.last_stall_check == s.last_stall_check
            &&& next.last_stall_warn == s.last_stall_warn
            &&& next.last_disk_check == s.last_disk_check
            &&& next.marks == s.marks
            &&& next.last_drop_log == s.last_drop_log || next.last_drop_log == now
            &&& next.last_drop_log != s.last_drop_log ==> report is Full && now - s.last_drop_log
                >= 1_000_000_000
            &&& report is Full && now - s.last_drop_log >= 1_000_000_000 ==> next.last_drop_log
                == now
            &&& next.discontinuity <==> s.discontinuity || report is Full
        }),
{
}

/// Once per second the books are kept: the elapsed time is the clock's, the peak of the second
/// that ended is put aside and a new one begins, the longest silence grows with the silence, and
/// the counts at the start of the window are those of a mark.
pub proof fn law_housekeeping_keeps_the_books(
    m: Metrics,
    now: u64,
    idle_ms: u64,
    marks: Seq<DropMark>,
)
    requires
        marks.len() > 0,
        m.capture_idle_checks < u64::MAX,
    ensures
        ({
            let k = housekept(m, now, idle_ms, marks);
            &&& k.elapsed_100ns * 100 <= now < k.elapsed_100ns * 100 + 100
            &&& k.audio_peak_last_sec == m.audio_peak_1s && k.audio_peak_1s == 0
            &&& k.capture_idle_ms_max >= idle_ms && k.capture_idle_ms_max >= m.capture_idle_ms_max
            &&& k.capture_idle_ms_max == idle_ms || k.capture_idle_ms_max == m.capture_idle_ms_max
            &&& k.capture_idle_checks == m.capture_idle_checks + (if idle_ms >= 3_000 {
                1int
            } else {
                0int
            })
            &&& exists|i: int|
                0 <= i <= marks.len() && k.window_scheduled == (#[trigger] marks.push(
                    mark_of(m, now),
                )[i]).scheduled && k.window_dropped == marks.push(mark_of(m, now))[i].dropped
            &&& k.frames_scheduled == m.frames_scheduled
            &&& k.frames_dropped_backpressure == m.frames_dropped_backpressure
            &&& k.frames_dropped_startup == m.frames_dropped_startup
            &&& k.audio_peak == m.audio_peak
        }),
{
    lemma_trimmed_is_a_part(marks.push(mark_of(m, now)), now as int);
}

proof fn lemma_trimmed_is_a_part(marks: Seq<DropMark>, now: int)
    requires
        marks.len() > 0,
    ensures
        trimmed(marks, now).len() > 0,
        exists|i: int| 0 <= i < marks.len() && #[trigger] marks[i] == trimmed(marks, now)[0],
    decreases marks.len(),
{
    if marks.len() > 1 && passed(now, marks[1].at_ns as int, DEGRADED_WINDOW_SECS as int) {
        lemma_trimmed_is_a_part(marks.remove(0), now);
        let i = choose|i: int|
            0 <= i < marks.remove(0).len() && #[trigger] marks.remove(0)[i] == trimmed(marks, now)[0];
        assert(marks[i + 1] == marks.remove(0)[i]);
    } else {
        assert(marks[0] == trimmed(marks, now)[0]);
    }
}

/// A mark holds the counts of its time.
pub proof fn law_marks_hold_the_counts(m: Metrics, now: u64)
    ensures
        mark_of(m, now).at_ns == now,
        mark_of(m, now).scheduled == m.frames_scheduled,
        mark_of(m, now).dropped == m.frames_dropped_backpressure,
{
}

/// A silent capture is warned about after three seconds, and then no more often than every five.
pub proof fn law_silent_capture_is_warned_about(s: TickState, m: Metrics, now: u64, idle_ms: int)
    ensures
        stall_warning_due(s, now as int, idle_ms) <==> {
            &&& now - s.last_stall_check >= 1_000_000_000
            &&& idle_ms >= 3_000
            &&& now - s.last_stall_warn >= 5_000_000_000
        },
        ({
            let next = after_housekeeping(s, m, now, idle_ms);
            &&& next.last_stall_warn == (if stall_warning_due(s, now as int, idle_ms) {
                now as int
            } else {
                s.last_stall_warn
            })
            &&& next.n == s.n && next.fps == s.fps
            &&& next.discontinuity == s.discontinuity
            &&& next.last_disk_check == s.last_disk_check
            &&& next.last_drop_log == s.last_drop_log
            &&& now - s.last_stall_check >= 1_000_000_000 ==> next.last_stall_check == now
            &&& now - s.last_stall_check < 1_000_000_000 ==> next.last_stall_check
                == s.last_stall_check && next.marks == s.marks
        }),
{
}

/// A frame fits the recording where it is as wide and as high.
pub proof fn law_frames_of_another_size_do_not_fit(image: Nv12Image, width: u32, height: u32)
    ensures
        fits(image, (width, height)) <==> image.width == width && image.height == height,
{
}

/// A slot is offered to the queue first. Only where there is no room the oldest frame is taken
/// out, and the same slot is offered once more; what was asked before stays as it was.
pub proof fn law_only_a_full_queue_gives_up_a_frame(
    report: SendReport,
    item: TickItem,
    before: Seq<QueueEvent<TickItem>>,
    after: Seq<QueueEvent<TickItem>>,
)
    requires
        met_with(report, item, before, after),
    ensures
        ({
            let n = before.len() as int;
            &&& after.len() == n + 1 || after.len() == n + 3
            &&& after.take(n) == before
            &&& after[n] matches QueueEvent::Offered(it, answer) && it == item
            &&& report is Queued <==> after[n] == QueueEvent::Offered(item, Answer::Taken)
            &&& report is Closed <==> after[n] == QueueEvent::Offered(item, Answer::Gone)
            &&& report is Full <==> after.len() == n + 3
            &&& report matches SendReport::Full { freed, resent } ==> {
                &&& after[n] == QueueEvent::Offered(item, Answer::NoRoom)
                &&& after[n + 1] matches QueueEvent::Removed(out) && freed == (out is Some)
                &&& after[n + 2] matches QueueEvent::Offered(it, last) && it == item && resent == (
                last is Taken)
            }
            &&& accepted(report) <==> after.last() == QueueEvent::Offered(item, Answer::Taken)
        }),
{
    assert(after.take(before.len() as int) =~= before);
}

/// The window of the degraded flag starts at the last mark that is ten seconds old, or at the first
/// one while the recording is younger: the counts in the books are those of that mark.
pub proof fn law_window_starts_ten_seconds_back(
    m: Metrics,
    now: u64,
    idle_ms: u64,
    marks: Seq<DropMark>,
) -> (i: int)
    requires
        marks.len() > 0,
    ensures
        ({
            let k = housekept(m, now, idle_ms, marks);
            let all = marks.push(
                DropMark {
                    at_ns: now,
                    scheduled: m.frames_scheduled,
                    dropped: m.frames_dropped_backpressure,
                },
            );
            &&& 0 <= i < all.len()
            &&& k.window_scheduled == all[i].scheduled
            &&& k.window_dropped == all[i].dropped
            &&& i > 0 ==> now - all[i].at_ns >= 10_000_000_000
            &&& i + 1 < all.len() ==> now - all[i + 1].at_ns < 10_000_000_000
        }),
{
    let all = marks.push(mark_of(m, now));
    lemma_trimmed_is_the_rest(all, now as int)
}

proof fn lemma_trimmed_is_the_rest(marks: Seq<DropMark>, now: int) -> (i: int)
    requires
        marks.len() > 0,
    ensures
        0 <= i < marks.len(),
        trimmed(marks, now) == marks.skip(i),
        i > 0 ==> now - marks[i].at_ns >= 10_000_000_000,
        i + 1 < marks.len() ==> now - marks[i + 1].at_ns < 10_000_000_000,
    decreases marks.len(),
{
    if marks.len() > 1 && passed(now, marks[1].at_ns as int, DEGRADED_WINDOW_SECS as int) {
        let rest = marks.remove(0);
        let i = lemma_trimmed_is_the_rest(rest, now);
        assert(rest.skip(i) =~= marks.skip(i + 1));
        i + 1
    } else {
        assert(marks.skip(0) =~= marks);
        0
    }
}

/// What the loop works on stays the same while it keeps its clocks: the frame that is held, the
/// size and the time line.
pub proof fn law_clocks_leave_the_stream_alone(before: TickLoop, after: TickLoop)
    requires
        after.same_stream(&before),
    ensures
        after.held_frame() == before.held_frame(),
        after.size() == before.size(),
        after.timeline_view() == before.timeline_view(),
{
}

} // verus!
