//! The writer: the one thread that hands video and audio to the encoder.
//!
//! The encoder does not accept an audio track whose time goes back, so a packet that does not
//! advance is refused here. A failure of the audio never ends the video. At the end of the
//! recording the audio track is filled with silence up to the end of the video.

use super::sound::AudioItem;
use super::tick::TickItem;
use super::Metrics;
use crate::audio::{silent_samples, AudioChunk, AudioFormat, ChunkView};
use crate::consts::{AUDIO_TAIL_PAD_MAX_MS, SILENCE_CHUNK_MS};
use crate::counter::{bump, later, next_count, wrapped};
use crate::encoder::{
    refusal_of, Exchange, FinalizeOutcome, Request, VideoEncoder, VideoFrame, VideoFrameData,
};
use crate::error::{MediaError, MediaResult};
use crate::time::{MfTime100ns, Srt100ns};
use vstd::prelude::*;

verus! {

/// Upper bound of the silence at the end, in media time.
pub const TAIL_PAD_MAX: i64 = AUDIO_TAIL_PAD_MAX_MS * 10_000;

/// Where the two tracks stand.
#[derive(Debug, Clone, Copy, PartialEq, Eq, Structural)]
pub struct WriterState {
    /// No more audio is taken: its queue is closed, or the encoder refused it.
    pub audio_done: bool,
    /// The encoder refused audio.
    pub audio_failed: bool,
    /// Time of the audio packet handed to the encoder last; the smallest number before the first.
    pub last_audio_pts: i64,
    /// End of the audio track.
    pub audio_end: i64,
    /// End of the video track.
    pub video_end: i64,
}

/// The state after a video frame was handed over.
pub open spec fn after_video(s: WriterState, pts: i64, duration: i64) -> WriterState {
    WriterState { video_end: wrapped(pts + duration), ..s }
}

/// An audio packet at `pts` does not advance.
pub open spec fn backwards(s: WriterState, pts: i64) -> bool {
    pts <= s.last_audio_pts
}

/// The state after the encoder answered to an audio packet.
pub open spec fn after_audio(s: WriterState, pts: i64, duration: i64, accepted: bool) -> WriterState {
    if accepted {
        WriterState { last_audio_pts: pts, audio_end: wrapped(pts + duration), ..s }
    } else {
        WriterState { last_audio_pts: pts, audio_done: true, audio_failed: true, ..s }
    }
}

/// The counters before a video frame is submitted.
pub open spec fn video_noted(m: Metrics, pts: i64, duplicate: bool) -> Metrics {
    Metrics {
        video_last_pts_100ns: pts,
        encoded_duplicates: if duplicate {
            next_count(m.encoded_duplicates)
        } else {
            m.encoded_duplicates
        },
        ..m
    }
}

/// The frame that an item becomes.
pub open spec fn frame_of(item: TickItem) -> VideoFrame {
    VideoFrame {
        data: VideoFrameData::Cpu(item.nv12),
        pts: item.pts,
        duration: item.duration,
        sequence: item.sequence,
        discontinuity: item.discontinuity,
    }
}

/// The audio packet that an item becomes.
pub open spec fn packet_of(item: AudioItem) -> Request {
    Request::Audio {
        chunk: item.chunk@,
        format: item.format,
        pts: item.pts,
        duration: item.duration,
    }
}

/// A refused packet leaves the audio as it was.
proof fn lemma_refused_packet(log: Seq<Exchange>, last: i64, next: Exchange)
    requires
        forward(log, last),
        !next.is_sound(),
    ensures
        forward(log.push(next), last),
{
}

/// The audio of a file goes forward: every packet that was taken is later than those before it,
/// and none is later than `last`.
pub open spec fn forward(log: Seq<Exchange>, last: i64) -> bool {
    &&& forall|i: int, j: int|
        0 <= i < j < log.len() && (#[trigger] log[i]).is_sound() && (#[trigger] log[j]).is_sound()
            ==> log[i].time() < log[j].time()
    &&& forall|i: int|
        0 <= i < log.len() && (#[trigger] log[i]).is_sound() ==> log[i].time() <= last
}

/// The video of a file goes forward: every frame that was asked for starts no earlier than the one
/// before it ends, every one lasts, and none ends behind the end of the video.
pub open spec fn shown_in_order(log: Seq<Exchange>, video_end: i64) -> bool {
    &&& forall|i: int, j: int|
        0 <= i < j < log.len() && (#[trigger] log[i]).request is Video && (#[trigger] log[j]).request
            is Video ==> log[i].request->Video_0.pts.0 + log[i].request->Video_0.duration.0
            <= log[j].request->Video_0.pts.0
    &&& forall|i: int|
        0 <= i < log.len() && (#[trigger] log[i]).request is Video ==> {
            &&& 0 < log[i].request->Video_0.duration.0
            &&& log[i].request->Video_0.pts.0 + log[i].request->Video_0.duration.0 <= video_end
        }
}

/// A frame carries what its item carries: the picture, the time, the length, the number and the
/// mark.
pub proof fn law_frame_carries_its_item(item: TickItem)
    ensures
        frame_of(item).data == VideoFrameData::Cpu(item.nv12),
        frame_of(item).pts == item.pts,
        frame_of(item).duration == item.duration,
        frame_of(item).sequence == item.sequence,
        frame_of(item).discontinuity == item.discontinuity,
{
}

/// A packet carries what its item carries: the samples, the format, the time and the length.
pub proof fn law_packet_carries_its_item(item: AudioItem)
    ensures
        packet_of(item) matches Request::Audio { chunk, format, pts, duration } && chunk
            == item.chunk@ && format == item.format && pts == item.pts && duration
            == item.duration,
{
}

/// The encoder and the books agree on a frame: it is shown from the time that is counted as the
/// last one of the video, and until the end of the video.
pub proof fn law_video_ends_with_its_last_frame(s: WriterState, m: Metrics, item: TickItem)
    requires
        i64::MIN <= item.pts.0 + item.duration.0 <= i64::MAX,
    ensures
        ({
            let frame = frame_of(item);
            let after = after_video(s, item.pts.0, item.duration.0);
            let counted = video_noted(m, item.pts.0, item.duplicate);
            &&& frame.pts.0 + frame.duration.0 == after.video_end
            &&& frame.pts.0 == counted.video_last_pts_100ns
            &&& after.audio_end == s.audio_end && after.last_audio_pts == s.last_audio_pts
            &&& after.audio_done == s.audio_done && after.audio_failed == s.audio_failed
            &&& counted.frames_encoded == m.frames_encoded
            &&& counted.encoded_duplicates == m.encoded_duplicates <==> !item.duplicate
        }),
{
}

proof fn lemma_later_packet(log: Seq<Exchange>, last: i64, next: Exchange)
    requires
        forward(log, last),
        next.is_sound(),
        next.time() > last,
    ensures
        forward(log.push(next), next.time()),
{
}

impl WriterState {
    pub fn new() -> (s: WriterState)
        ensures
            s == (WriterState {
                audio_done: false,
                audio_failed: false,
                last_audio_pts: i64::MIN,
                audio_end: 0,
                video_end: 0,
            }),
    {
        WriterState {
            audio_done: false,
            audio_failed: false,
            last_audio_pts: i64::MIN,
            audio_end: 0,
            video_end: 0,
        }
    }

    /// Takes a video item and makes the frame that is to be submitted.
    pub fn take_video(&mut self, item: TickItem, metrics: &mut Metrics) -> (frame: VideoFrame)
        ensures
            *final(self) == after_video(*old(self), item.pts.0, item.duration.0),
            *final(metrics) == video_noted(*old(metrics), item.pts.0, item.duplicate),
            frame == frame_of(item),
            frame.data == VideoFrameData::Cpu(item.nv12),
            frame.pts == item.pts,
            frame.duration == item.duration,
            frame.sequence == item.sequence,
            frame.discontinuity == item.discontinuity,
    {
        self.video_end = later(item.pts.0, item.duration.0);
        metrics.video_last_pts_100ns = item.pts.0;
        if item.duplicate {
            bump(&mut metrics.encoded_duplicates);
        }
        VideoFrame {
            data: VideoFrameData::Cpu(item.nv12),
            pts: item.pts,
            duration: item.duration,
            sequence: item.sequence,
            discontinuity: item.discontinuity,
        }
    }

    /// Submits a video item. An error of the encoder ends the recording.
    pub fn submit_video_item<E: VideoEncoder + ?Sized>(
        &mut self,
        encoder: &mut E,
        item: TickItem,
        metrics: &mut Metrics,
    ) -> (r: MediaResult<()>)
        ensures
            *final(self) == after_video(*old(self), item.pts.0, item.duration.0),
            *final(metrics) == video_noted(*old(metrics), item.pts.0, item.duplicate),
            final(encoder).log() == old(encoder).log().push(
                (Exchange { request: Request::Video(frame_of(item)), refusal: refusal_of(r) }),
            ),
            shown_in_order(old(encoder).log(), old(self).video_end) && old(self).video_end
                <= item.pts.0 && 0 < item.duration.0 && item.pts.0 + item.duration.0 <= i64::MAX
                ==> shown_in_order(final(encoder).log(), final(self).video_end),
            forward(old(encoder).log(), old(self).last_audio_pts) ==> forward(
                final(encoder).log(),
                final(self).last_audio_pts,
            ),
    {
        let frame: VideoFrame = self.take_video(item, metrics);
        encoder.submit(&frame)
    }

    /// Tells whether an audio packet advances; one that does not is counted.
    pub fn check_audio(&self, pts: i64, metrics: &mut Metrics) -> (advances: bool)
        ensures
            advances == !backwards(*self, pts),
            *final(metrics) == (if advances {
                *old(metrics)
            } else {
                Metrics {
                    audio_dropped_backwards: next_count(old(metrics).audio_dropped_backwards),
                    ..*old(metrics)
                }
            }),
    {
        if pts <= self.last_audio_pts {
            bump(&mut metrics.audio_dropped_backwards);
            false
        } else {
            true
        }
    }

    /// Books the answer of the encoder to an audio packet.
    pub fn audio_answered(
        &mut self,
        pts: i64,
        duration: i64,
        accepted: bool,
        metrics: &mut Metrics,
    )
        ensures
            *final(self) == after_audio(*old(self), pts, duration, accepted),
            *final(metrics) == (if accepted {
                Metrics { audio_last_pts_100ns: wrapped(pts + duration), ..*old(metrics) }
            } else {
                *old(metrics)
            }),
    {
        self.last_audio_pts = pts;
        if accepted {
            let end: i64 = later(pts, duration);
            metrics.audio_last_pts_100ns = end;
            self.audio_end = end;
        } else {
            self.audio_done = true;
            self.audio_failed = true;
        }
    }

    /// Submits an audio item. A packet that does not advance is dropped; a refusal of the encoder
    /// ends the audio, never the video, and is handed out for the log.
    pub fn submit_audio_item<E: VideoEncoder + ?Sized>(
        &mut self,
        encoder: &mut E,
        item: AudioItem,
        metrics: &mut Metrics,
    ) -> (refused: Option<MediaError>)
        ensures
            backwards(*old(self), item.pts.0) ==> {
                &&& refused is None
                &&& *final(self) == *old(self)
                &&& final(encoder).log() == old(encoder).log()
                &&& *final(metrics) == (Metrics {
                    audio_dropped_backwards: next_count(old(metrics).audio_dropped_backwards),
                    ..*old(metrics)
                })
            },
            !backwards(*old(self), item.pts.0) ==> {
                &&& *final(self) == after_audio(
                    *old(self),
                    item.pts.0,
                    item.duration.0,
                    refused is None,
                )
                &&& final(encoder).log() == old(encoder).log().push(
                    (Exchange { request: packet_of(item), refusal: refused }),
                )
                &&& *final(metrics) == (if refused is None {
                    Metrics {
                        audio_last_pts_100ns: wrapped(item.pts.0 + item.duration.0),
                        ..*old(metrics)
                    }
                } else {
                    *old(metrics)
                })
            },
            forward(old(encoder).log(), old(self).last_audio_pts) ==> forward(
                final(encoder).log(),
                final(self).last_audio_pts,
            ),
    {
        if !self.check_audio(item.pts.0, metrics) {
            return None;
        }
        match encoder.submit_audio(&item.chunk, item.format, item.pts, item.duration) {
            Ok(()) => {
                self.audio_answered(item.pts.0, item.duration.0, true, metrics);
                None
            },
            Err(e) => {
                self.audio_answered(item.pts.0, item.duration.0, false, metrics);
                Some(e)
            },
        }
    }

    /// The audio queue was closed: from now on only video is awaited.
    pub fn audio_closed(&mut self)
        ensures
            *final(self) == (WriterState { audio_done: true, ..*old(self) }),
    {
        self.audio_done = true;
    }
}

/// What the writer takes from the queues.
pub enum WriterInput {
    Video(TickItem),
    Audio(AudioItem),
    /// The tick loop is over and its queue is drained.
    VideoClosed,
    /// The audio loop is over and its queue is drained.
    AudioClosed,
}

/// What became of an input.
#[derive(Debug)]
pub enum WriterTurn {
    /// A frame was submitted; the time it took is booked with [`video_submitted`].
    FrameWritten,
    /// An audio packet was handed over, or dropped because it did not advance.
    AudioTaken,
    /// The encoder refused audio; only video is awaited from now on.
    AudioRefused(MediaError),
    /// Only video is awaited from now on.
    AudioOver,
    /// The file can be completed.
    Over,
}

impl WriterState {
    /// One turn of the writer. The only error is that of a video frame.
    pub fn turn<E: VideoEncoder + ?Sized>(
        &mut self,
        encoder: &mut E,
        input: WriterInput,
        metrics: &mut Metrics,
    ) -> (r: MediaResult<WriterTurn>)
        ensures
            forward(old(encoder).log(), old(self).last_audio_pts) ==> forward(
                final(encoder).log(),
                final(self).last_audio_pts,
            ),
            match input {
                WriterInput::Video(item) => {
                    &&& r matches Ok(t) ==> t is FrameWritten
                    &&& final(encoder).log() == old(encoder).log().push(
                        (Exchange {
                            request: Request::Video(frame_of(item)),
                            refusal: refusal_of(r),
                        }),
                    )
                    &&& *final(self) == after_video(*old(self), item.pts.0, item.duration.0)
                    &&& *final(metrics) == video_noted(*old(metrics), item.pts.0, item.duplicate)
                    &&& shown_in_order(old(encoder).log(), old(self).video_end) && old(
                        self,
                    ).video_end <= item.pts.0 && 0 < item.duration.0 && item.pts.0
                        + item.duration.0 <= i64::MAX ==> shown_in_order(
                        final(encoder).log(),
                        final(self).video_end,
                    )
                },
                WriterInput::Audio(item) => {
                    &&& r is Ok
                    &&& r->Ok_0 is AudioTaken || r->Ok_0 is AudioRefused
                    &&& if backwards(*old(self), item.pts.0) {
                        &&& r->Ok_0 is AudioTaken
                        &&& *final(self) == *old(self)
                        &&& final(encoder).log() == old(encoder).log()
                        &&& *final(metrics) == (Metrics {
                            audio_dropped_backwards: next_count(
                                old(metrics).audio_dropped_backwards,
                            ),
                            ..*old(metrics)
                        })
                    } else {
                        &&& *final(self) == after_audio(
                            *old(self),
                            item.pts.0,
                            item.duration.0,
                            r->Ok_0 is AudioTaken,
                        )
                        &&& final(encoder).log() == old(encoder).log().push(
                            (Exchange {
                                request: packet_of(item),
                                refusal: match r->Ok_0 {
                                    WriterTurn::AudioRefused(e) => Some(e),
                                    _ => None,
                                },
                            }),
                        )
                        &&& *final(metrics) == (if r->Ok_0 is AudioTaken {
                            Metrics {
                                audio_last_pts_100ns: wrapped(item.pts.0 + item.duration.0),
                                ..*old(metrics)
                            }
                        } else {
                            *old(metrics)
                        })
                    }
                },
                WriterInput::VideoClosed => {
                    &&& r matches Ok(t) && t is Over
                    &&& *final(self) == *old(self)
                    &&& final(encoder).log() == old(encoder).log()
                    &&& *final(metrics) == *old(metrics)
                },
                WriterInput::AudioClosed => {
                    &&& r matches Ok(t) && t is AudioOver
                    &&& final(encoder).log() == old(encoder).log()
                    &&& *final(self) == (WriterState { audio_done: true, ..*old(self) })
                    &&& *final(metrics) == *old(metrics)
                },
            },
    {
        match input {
            WriterInput::Video(item) => match self.submit_video_item(encoder, item, metrics) {
                Ok(()) => Ok(WriterTurn::FrameWritten),
                Err(e) => Err(e),
            },
            WriterInput::Audio(item) => match self.submit_audio_item(encoder, item, metrics) {
                None => Ok(WriterTurn::AudioTaken),
                Some(e) => Ok(WriterTurn::AudioRefused(e)),
            },
            WriterInput::VideoClosed => Ok(WriterTurn::Over),
            WriterInput::AudioClosed => {
                self.audio_closed();
                Ok(WriterTurn::AudioOver)
            },
        }
    }
}

/// Books a frame that the encoder accepted, and the microseconds it took.
pub fn video_submitted(metrics: &mut Metrics, micros: u64)
    ensures
        *final(metrics) == (Metrics {
            submit_ms_x100_sum: ((old(metrics).submit_ms_x100_sum + micros / 10)
                % 0x1_0000_0000_0000_0000) as u64,
            submit_count: next_count(old(metrics).submit_count),
            frames_encoded: next_count(old(metrics).frames_encoded),
            ..*old(metrics)
        }),
{
    metrics.submit_ms_x100_sum = metrics.submit_ms_x100_sum.wrapping_add(micros / 10);
    bump(&mut metrics.submit_count);
    bump(&mut metrics.frames_encoded);
}

/// The sample rate that a tail is made for.
pub open spec fn tail_rate(fmt: AudioFormat) -> int {
    if fmt.sample_rate < 1 {
        1
    } else {
        fmt.sample_rate as int
    }
}

/// Frames of one block of silence.
pub open spec fn tail_frames(fmt: AudioFormat) -> int {
    if tail_rate(fmt) * SILENCE_CHUNK_MS / 1000 < 1 {
        1
    } else {
        tail_rate(fmt) * SILENCE_CHUNK_MS / 1000
    }
}

/// Length of one block of silence in media time.
pub open spec fn tail_duration(fmt: AudioFormat) -> int {
    tail_frames(fmt) * 10_000_000 / tail_rate(fmt)
}

proof fn lemma_tail_duration_is_positive(fmt: AudioFormat)
    ensures
        1 <= tail_frames(fmt) <= u32::MAX,
        0 < tail_duration(fmt) <= 10_000_000,
{
    let rate = tail_rate(fmt);
    let frames = tail_frames(fmt);
    assert(frames <= rate);
    assert(rate <= frames * 100) by {
        if rate * SILENCE_CHUNK_MS / 1000 < 1 {
            assert(rate < 50);
        }
    }
    assert(frames * 10_000_000 / rate >= 100_000) by (nonlinear_arith)
        requires
            rate <= frames * 100,
            rate >= 1,
    ;
    assert(frames * 10_000_000 / rate <= 10_000_000) by (nonlinear_arith)
        requires
            frames <= rate,
            rate >= 1,
            frames >= 1,
    ;
}

/// Where the silence starts: at the end of the audio track.
pub open spec fn tail_start(s: WriterState) -> int {
    if s.audio_end < 0 {
        0
    } else {
        s.audio_end as int
    }
}

/// The number of whole blocks that fit between the two ends and stay within the bound.
pub open spec fn tail_blocks(d: int, start: int, video_end: int) -> int {
    let room = if video_end < start {
        0
    } else {
        (video_end - start) / d
    };
    let bound = TAIL_PAD_MAX as int / d;
    if room < bound {
        room
    } else {
        bound
    }
}

/// The silence would not advance: the track's last packet starts at or behind its end.
pub open spec fn tail_blocked(s: WriterState) -> bool {
    tail_start(s) <= (if s.last_audio_pts == i64::MIN {
        -1
    } else {
        s.last_audio_pts as int
    })
}

/// The tail is empty: there is no audio track, or no video.
pub open spec fn no_tail(fmt: Option<AudioFormat>, video_end: i64) -> bool {
    fmt is None || video_end <= 0
}

/// The state and the counters after `k` blocks of length `d` were written.
pub open spec fn padded_state(s: WriterState, d: int, k: int) -> WriterState {
    if k == 0 {
        s
    } else {
        WriterState { last_audio_pts: (tail_start(s) + (k - 1) * d) as i64, ..s }
    }
}

pub open spec fn padded_metrics(m: Metrics, s: WriterState, d: int, k: int) -> Metrics {
    if k == 0 {
        m
    } else {
        Metrics {
            audio_last_pts_100ns: (tail_start(s) + k * d) as i64,
            audio_chunks: count_after(m.audio_chunks, k),
            audio_filler_blocks: count_after(m.audio_filler_blocks, k),
            ..m
        }
    }
}

/// The tail is no sound of a device: it leaves the number of blocks that hold samples of one as it
/// was.
pub proof fn law_tail_is_not_counted_as_sound(m: Metrics, s: WriterState, d: int, k: int)
    requires
        0 <= k,
        m.audio_filler_blocks <= m.audio_chunks,
        m.audio_chunks + k <= u64::MAX,
    ensures
        ({
            let after = padded_metrics(m, s, d, k);
            &&& after.audio_chunks == m.audio_chunks + k
            &&& after.audio_filler_blocks == m.audio_filler_blocks + k
            &&& after.audio_chunks - after.audio_filler_blocks == m.audio_chunks
                - m.audio_filler_blocks
        }),
{
}

/// A counter after `k` more; it wraps around.
pub open spec fn count_after(n: u64, k: int) -> u64 {
    ((n + k) % 0x1_0000_0000_0000_0000) as u64
}

proof fn lemma_blocks(d: int, start: int, video_end: int, k: int)
    requires
        0 < d <= 10_000_000,
        start >= 0,
        0 <= k,
    ensures
        k < tail_blocks(d, start, video_end) <==> start + k * d + d <= video_end && k * d + d
            <= TAIL_PAD_MAX,
        tail_blocks(d, start, video_end) >= 0,
{
    let gap = video_end - start;
    let top = TAIL_PAD_MAX as int;
    vstd::arithmetic::div_mod::lemma_fundamental_div_mod(gap, d);
    vstd::arithmetic::div_mod::lemma_mod_bound(gap, d);
    vstd::arithmetic::div_mod::lemma_fundamental_div_mod(top, d);
    vstd::arithmetic::div_mod::lemma_mod_bound(top, d);
    let q = gap / d;
    let p = top / d;
    assert(k * d + d <= gap <==> k + 1 <= q) by (nonlinear_arith)
        requires
            gap == d * q + gap % d,
            0 <= gap % d < d,
            d > 0,
    ;
    assert(k * d + d <= top <==> k < p) by (nonlinear_arith)
        requires
            top == d * p + top % d,
            0 <= top % d < d,
            d > 0,
    ;
    assert(k * d >= 0) by (nonlinear_arith)
        requires
            k >= 0,
            d > 0,
    ;
    if gap >= 0 {
        vstd::arithmetic::div_mod::lemma_div_pos_is_pos(gap, d);
    }
    vstd::arithmetic::div_mod::lemma_div_pos_is_pos(top, d);
}

/// The `i`-th block of silence, as the encoder gets it.
pub open spec fn tail_packet(fmt: AudioFormat, start: int, i: int) -> Request {
    Request::Audio {
        chunk: ChunkView {
            pcm: silent_samples((tail_frames(fmt) * fmt.channels) as nat),
            frames: tail_frames(fmt) as u32,
            srt: 0,
        },
        format: fmt,
        pts: MfTime100ns((start + i * tail_duration(fmt)) as i64),
        duration: MfTime100ns(tail_duration(fmt) as i64),
    }
}

/// The log of a tail: `k` blocks were taken, and the next one was refused where there was a
/// refusal.
pub open spec fn tail_log(
    fmt: AudioFormat,
    start: int,
    k: int,
    refusal: Option<MediaError>,
) -> Seq<Exchange> {
    let accepted = Seq::new(
        k as nat,
        |i: int| Exchange { request: tail_packet(fmt, start, i), refusal: None },
    );
    match refusal {
        None => accepted,
        Some(e) => accepted.push(
            (Exchange { request: tail_packet(fmt, start, k), refusal: Some(e) }),
        ),
    }
}

proof fn lemma_tail_grows(
    first: Seq<Exchange>,
    fmt: AudioFormat,
    start: int,
    k: int,
    refusal: Option<MediaError>,
)
    requires
        0 <= k,
    ensures
        (first + tail_log(fmt, start, k, None)).push(
            (Exchange { request: tail_packet(fmt, start, k), refusal }),
        ) == first + (if refusal is None {
            tail_log(fmt, start, k + 1, None)
        } else {
            tail_log(fmt, start, k, refusal)
        }),
{
    let grown = (first + tail_log(fmt, start, k, None)).push(
        (Exchange { request: tail_packet(fmt, start, k), refusal }),
    );
    if refusal is None {
        assert(grown =~= first + tail_log(fmt, start, k + 1, None));
    } else {
        assert(grown =~= first + tail_log(fmt, start, k, refusal));
    }
}

proof fn lemma_one_more(n: u64, k: int)
    requires
        0 <= k,
    ensures
        next_count(count_after(n, k)) == count_after(n, k + 1),
        count_after(n, 0) == n,
{
}

/// The silence that was written: nothing where there is no tail, nothing but a count where the
/// first block would not advance, and else every block that is due, one after the other, until
/// the encoder refuses one.
pub open spec fn tail_written(
    fmt: Option<AudioFormat>,
    s: WriterState,
    after: WriterState,
    m: Metrics,
    after_m: Metrics,
    log: Seq<Exchange>,
    after_log: Seq<Exchange>,
    padded: i64,
) -> bool {
    if no_tail(fmt, s.video_end) {
        &&& padded == 0
        &&& after == s
        &&& after_m == m
        &&& after_log == log
    } else {
        let d = tail_duration(fmt->0);
        let most = tail_blocks(d, tail_start(s), s.video_end as int);
        if most > 0 && tail_blocked(s) {
            &&& padded == 0
            &&& after == s
            &&& after_m == (Metrics {
                audio_dropped_backwards: next_count(m.audio_dropped_backwards),
                ..m
            })
            &&& after_log == log
        } else {
            exists|k: int, refusal: Option<MediaError>|
                0 <= k <= most && (refusal is None <==> k == most) && padded == k * d && after
                    == padded_state(s, d, k) && after_m == padded_metrics(m, s, d, k) && after_log
                    == log + #[trigger] tail_log(fmt->0, tail_start(s), k, refusal)
        }
    }
}

/// Fills the audio track with silence up to the end of the video. Only whole blocks are written,
/// never beyond the video, and never more than the bound; a track whose last packet would not be
/// followed by a later one is left alone and the attempt is counted. A refusal of the encoder
/// leaves the track a little shorter. The blocks count as audio and as filler. Returns the length
/// of what was written.
#[verifier::spinoff_prover]
pub fn pad_audio_tail<E: VideoEncoder + ?Sized>(
    encoder: &mut E,
    fmt: Option<AudioFormat>,
    metrics: &mut Metrics,
    state: &mut WriterState,
) -> (padded: i64)
    requires
        fmt matches Some(f) ==> tail_frames(f) * f.channels <= usize::MAX,
    ensures
        tail_written(
            fmt,
            *old(state),
            *final(state),
            *old(metrics),
            *final(metrics),
            old(encoder).log(),
            final(encoder).log(),
            padded,
        ),
        0 <= padded <= TAIL_PAD_MAX,
        forward(old(encoder).log(), old(state).last_audio_pts) ==> forward(
            final(encoder).log(),
            final(state).last_audio_pts,
        ),
{
    let fmt: AudioFormat = match fmt {
        Some(f) => f,
        None => {
            return 0;
        },
    };
    if state.video_end <= 0 {
        return 0;
    }
    let mut pad: TailPad = TailPad::new(fmt, state);
    let ghost s = *state;
    let ghost d = tail_duration(fmt);
    let ghost most = tail_blocks(d, tail_start(s), s.video_end as int);
    let ghost mut refusal: Option<MediaError> = None;
    proof {
        lemma_tail_duration_is_positive(fmt);
        lemma_blocks(d, tail_start(s), s.video_end as int, 0);
        assert(0 * d == 0) by (nonlinear_arith);
        assert(encoder.log() + tail_log(fmt, tail_start(s), 0, None) =~= encoder.log());
    }
    let mut go: bool = true;
    while go
        invariant
            pad.wf(),
            pad.basis() == s,
            pad.block() == fmt,
            s == *old(state),
            s.video_end > 0,
            d == tail_duration(fmt),
            0 < d <= 10_000_000,
            most == tail_blocks(d, tail_start(s), s.video_end as int),
            tail_frames(fmt) * fmt.channels <= usize::MAX,
            0 <= pad.count() <= most,
            most > 0 && tail_blocked(s) ==> pad.count() == 0 && refusal is None,
            *state == padded_state(s, d, pad.count()),
            encoder.log() == old(encoder).log() + tail_log(
                fmt,
                tail_start(s),
                pad.count(),
                refusal,
            ),
            go ==> refusal is None,
            !go && !(most > 0 && tail_blocked(s)) ==> (refusal is None <==> pad.count() == most),
            forward(old(encoder).log(), s.last_audio_pts) ==> forward(
                encoder.log(),
                state.last_audio_pts,
            ),
            go ==> *metrics == padded_metrics(*old(metrics), s, d, pad.count()),
            !go ==> (if most > 0 && tail_blocked(s) {
                *metrics == (Metrics {
                    audio_dropped_backwards: next_count(old(metrics).audio_dropped_backwards),
                    ..*old(metrics)
                })
            } else {
                *metrics == padded_metrics(*old(metrics), s, d, pad.count())
            }),
        decreases
                (if go {
                    most - pad.count() + 1
                } else {
                    0
                }),
    {
        match pad.next() {
            TailStep::Done => {
                go = false;
            },
            TailStep::Blocked => {
                bump(&mut metrics.audio_dropped_backwards);
                go = false;
            },
            TailStep::Write(pts) => {
                let chunk: AudioChunk = pad.silence();
                let ghost k = pad.count();
                let ghost before = encoder.log();
                proof {
                    lemma_blocks(d, tail_start(s), s.video_end as int, k);
                    assert((k - 1) * d == k * d - d) by (nonlinear_arith);
                    assert(k == 0 ==> k * d == 0) by (nonlinear_arith);
                    assert(pts.0 > state.last_audio_pts);
                }
                match encoder.submit_audio(&chunk, fmt, pts, pad.duration()) {
                    Ok(()) => {
                        proof {
                            let next = Exchange {
                                request: tail_packet(fmt, tail_start(s), k),
                                refusal: None,
                            };
                            assert(encoder.log() == before.push(next));
                            if forward(before, state.last_audio_pts) {
                                lemma_later_packet(before, state.last_audio_pts, next);
                            }
                            lemma_tail_grows(old(encoder).log(), fmt, tail_start(s), k, None);
                            lemma_one_more(old(metrics).audio_chunks, k);
                            lemma_one_more(old(metrics).audio_filler_blocks, k);
                        }
                        pad.written();
                        state.last_audio_pts = pts.0;
                        metrics.audio_last_pts_100ns = pad.end();
                        bump(&mut metrics.audio_chunks);
                        bump(&mut metrics.audio_filler_blocks);
                    },
                    Err(e) => {
                        proof {
                            refusal = Some(e);
                            lemma_tail_grows(old(encoder).log(), fmt, tail_start(s), k, refusal);
                            if forward(before, state.last_audio_pts) {
                                lemma_refused_packet(
                                    before,
                                    state.last_audio_pts,
                                    (Exchange {
                                        request: tail_packet(fmt, tail_start(s), k),
                                        refusal,
                                    }),
                                );
                            }
                        }
                        go = false;
                    },
                }
            },
        }
    }
    proof {
        law_tail_is_bounded(fmt, s, pad.count());
    }
    pad.padded()
}

/// Completes the file: silence up to the end of the video, unless the encoder has refused audio,
/// then the rest of the encoder's frames, then the end of the file. Gives the result and the
/// length of the silence.
pub fn complete_file<E: VideoEncoder + ?Sized>(
    encoder: Box<E>,
    fmt: Option<AudioFormat>,
    metrics: &mut Metrics,
    state: &mut WriterState,
) -> (r: (MediaResult<FinalizeOutcome>, i64))
    requires
        fmt matches Some(f) ==> tail_frames(f) * f.channels <= usize::MAX,
    ensures
        exists|e: Box<E>| #[trigger]
            completed(
                e,
                encoder.log(),
                fmt,
                (*old(state), *final(state)),
                (*old(metrics), *final(metrics)),
                r,
            ),
{
    let ghost before = encoder.log();
    let mut encoder: Box<E> = encoder;
    let mut padded: i64 = 0;
    if !state.audio_failed {
        padded = pad_audio_tail(&mut *encoder, fmt, metrics, state);
    }
    let ghost written = encoder.log();
    let flushed: MediaResult<()> = encoder.flush();
    let ghost done: Box<E> = encoder;
    proof {
        assert(done.log().drop_last() =~= written);
        assert(done.log().last().refusal == refusal_of(flushed));
    }
    let result: MediaResult<FinalizeOutcome> = match flushed {
        Err(e) => Err(e),
        Ok(()) => encoder.finish(),
    };
    let r: (MediaResult<FinalizeOutcome>, i64) = (result, padded);
    assert(completed(done, before, fmt, (*old(state), *state), (*old(metrics), *metrics), r));
    r
}

/// A file was completed with the encoder `e`: it was asked for the tail, unless it had refused
/// audio before, and then for the rest of its frames. A refusal of those is the result; else the
/// encoder was asked to finish and its answer is the result.
pub open spec fn completed<E: VideoEncoder + ?Sized>(
    e: Box<E>,
    before: Seq<Exchange>,
    fmt: Option<AudioFormat>,
    states: (WriterState, WriterState),
    metrics: (Metrics, Metrics),
    r: (MediaResult<FinalizeOutcome>, i64),
) -> bool {
    let log = e.log();
    &&& log.len() > 0
    &&& log.last().request is Flush
    &&& if states.0.audio_failed {
        &&& r.1 == 0
        &&& states.1 == states.0
        &&& metrics.1 == metrics.0
        &&& log.drop_last() == before
    } else {
        tail_written(
            fmt,
            states.0,
            states.1,
            metrics.0,
            metrics.1,
            before,
            log.drop_last(),
            r.1,
        )
    }
    &&& match log.last().refusal {
        Some(why) => r.0 == Err::<FinalizeOutcome, MediaError>(why),
        None => e.can_end_as(r.0),
    }
}

/// What to do next about the tail.
#[derive(Debug, Clone, Copy, PartialEq, Eq, Structural)]
pub enum TailStep {
    /// Write a block of silence at this time.
    Write(MfTime100ns),
    /// The block would not advance.
    Blocked,
    Done,
}

/// The silence at the end of a recording, block by block.
pub struct TailPad {
    fmt: AudioFormat,
    frames: u32,
    block_length: i64,
    video_end: i64,
    last_written: i64,
    cursor: i64,
    total: i64,
    count: Ghost<int>,
    state: Ghost<WriterState>,
}

impl TailPad {
    /// The state of the writer that the tail continues.
    pub closed spec fn basis(&self) -> WriterState {
        self.state@
    }

    pub closed spec fn block(&self) -> AudioFormat {
        self.fmt
    }

    /// How many blocks were written.
    pub closed spec fn count(&self) -> int {
        self.count@
    }

    pub closed spec fn wf(&self) -> bool {
        let s = self.state@;
        let d = tail_duration(self.fmt);
        &&& self.count@ >= 0
        &&& self.frames == tail_frames(self.fmt)
        &&& self.block_length == d
        &&& self.video_end == s.video_end
        &&& s.video_end > 0
        &&& self.cursor == tail_start(s) + self.count@ * d
        &&& self.total == self.count@ * d
        &&& self.count@ == 0 ==> self.last_written == (if s.last_audio_pts == i64::MIN {
            -1
        } else {
            s.last_audio_pts as int
        })
        &&& self.count@ > 0 ==> self.last_written == tail_start(s) + (self.count@ - 1) * d
        &&& self.count@ > 0 ==> self.cursor <= s.video_end
    }

    pub fn new(fmt: AudioFormat, state: &WriterState) -> (pad: TailPad)
        requires
            state.video_end > 0,
        ensures
            pad.wf(),
            pad.basis() == *state,
            pad.block() == fmt,
            pad.count() == 0,
    {
        proof {
            lemma_tail_duration_is_positive(fmt);
            assert(0 * tail_duration(fmt) == 0) by (nonlinear_arith);
        }
        let rate: u64 = if fmt.sample_rate < 1 {
            1
        } else {
            fmt.sample_rate as u64
        };
        let whole: u64 = rate * SILENCE_CHUNK_MS as u64 / 1000;
        let frames: u64 = if whole < 1 {
            1
        } else {
            whole
        };
        TailPad {
            fmt,
            frames: frames as u32,
            block_length: (frames * 10_000_000 / rate) as i64,
            video_end: state.video_end,
            last_written: if state.last_audio_pts == i64::MIN {
                -1
            } else {
                state.last_audio_pts
            },
            cursor: if state.audio_end < 0 {
                0
            } else {
                state.audio_end
            },
            total: 0,
            count: Ghost(0),
            state: Ghost(*state),
        }
    }

    /// The next step: a block is due as long as it ends before the video and within the bound.
    pub fn next(&self) -> (step: TailStep)
        requires
            self.wf(),
        ensures
            ({
                let s = self.basis();
                let d = tail_duration(self.block());
                let k = self.count();
                step == (if k >= tail_blocks(d, tail_start(s), s.video_end as int) {
                    TailStep::Done
                } else if k == 0 && tail_blocked(s) {
                    TailStep::Blocked
                } else {
                    TailStep::Write(MfTime100ns((tail_start(s) + k * d) as i64))
                })
            }),
    {
        proof {
            let s = self.state@;
            let d = tail_duration(self.fmt);
            lemma_tail_duration_is_positive(self.fmt);
            lemma_blocks(d, tail_start(s), s.video_end as int, self.count@);
            assert(0 * d == 0) by (nonlinear_arith);
            if self.count@ > 0 {
                assert((self.count@ - 1) * d == self.count@ * d - d) by (nonlinear_arith);
            }
        }
        if self.cursor <= self.video_end - self.block_length && self.total <= TAIL_PAD_MAX
            - self.block_length {
            if self.cursor <= self.last_written {
                TailStep::Blocked
            } else {
                TailStep::Write(MfTime100ns(self.cursor))
            }
        } else {
            TailStep::Done
        }
    }

    /// The block of silence.
    pub fn silence(&self) -> (chunk: AudioChunk)
        requires
            self.wf(),
            tail_frames(self.block()) * self.block().channels <= usize::MAX,
        ensures
            chunk.pcm@ == crate::audio::silent_samples(
                (tail_frames(self.block()) * self.block().channels) as nat,
            ),
            chunk.frames == tail_frames(self.block()),
            chunk.srt.0 == 0,
    {
        AudioChunk::silence(&self.fmt, self.frames, Srt100ns(0))
    }

    pub fn duration(&self) -> (d: MfTime100ns)
        requires
            self.wf(),
        ensures
            d.0 == tail_duration(self.block()),
    {
        MfTime100ns(self.block_length)
    }

    /// The block was accepted.
    pub fn written(&mut self)
        requires
            old(self).wf(),
            old(self).count() < tail_blocks(
                tail_duration(old(self).block()),
                tail_start(old(self).basis()),
                old(self).basis().video_end as int,
            ),
        ensures
            final(self).wf(),
            final(self).basis() == old(self).basis(),
            final(self).block() == old(self).block(),
            final(self).count() == old(self).count() + 1,
    {
        proof {
            let s = self.state@;
            let d = tail_duration(self.fmt);
            lemma_tail_duration_is_positive(self.fmt);
            lemma_blocks(d, tail_start(s), s.video_end as int, self.count@);
            assert((self.count@ + 1) * d == self.count@ * d + d) by (nonlinear_arith);
        }
        self.last_written = self.cursor;
        self.cursor = self.cursor + self.block_length;
        self.total = self.total + self.block_length;
        self.count = Ghost(self.count@ + 1);
    }

    /// End of the audio track with the silence written so far.
    pub fn end(&self) -> (t: i64)
        requires
            self.wf(),
        ensures
            t == tail_start(self.basis()) + self.count() * tail_duration(self.block()),
    {
        self.cursor
    }

    /// Length of the silence written so far.
    pub fn padded(&self) -> (t: i64)
        requires
            self.wf(),
        ensures
            t == self.count() * tail_duration(self.block()),
    {
        self.total
    }
}

/// The silence at the end is bounded: it never reaches beyond the video, and it is never longer
/// than the bound.
pub proof fn law_tail_is_bounded(fmt: AudioFormat, s: WriterState, k: int)
    requires
        s.video_end > 0,
        0 <= k <= tail_blocks(tail_duration(fmt), tail_start(s), s.video_end as int),
    ensures
        k > 0 ==> tail_start(s) + k * tail_duration(fmt) <= s.video_end,
        0 <= k * tail_duration(fmt) <= TAIL_PAD_MAX,
{
    let d = tail_duration(fmt);
    lemma_tail_duration_is_positive(fmt);
    if k > 0 {
        lemma_blocks(d, tail_start(s), s.video_end as int, k - 1);
        assert((k - 1) * d == k * d - d) by (nonlinear_arith);
    } else {
        assert(0 * d == 0) by (nonlinear_arith);
    }
}

/// Where the encoder accepts every block, the gap that remains at the end is shorter than one
/// block, or there is no room for one more within the bound.
pub proof fn law_complete_tail_closes_the_gap(fmt: AudioFormat, s: WriterState)
    requires
        s.video_end > 0,
    ensures
        ({
            let d = tail_duration(fmt);
            let k = tail_blocks(d, tail_start(s), s.video_end as int);
            s.video_end - (tail_start(s) + k * d) < d || k * d + d > TAIL_PAD_MAX
        }),
{
    let d = tail_duration(fmt);
    lemma_tail_duration_is_positive(fmt);
    lemma_blocks(d, tail_start(s), s.video_end as int, 0);
    lemma_blocks(
        d,
        tail_start(s),
        s.video_end as int,
        tail_blocks(d, tail_start(s), s.video_end as int),
    );
}

/// The state after one packet: one that does not advance changes nothing.
pub open spec fn after_packet(s: WriterState, p: (i64, i64, bool)) -> WriterState {
    if backwards(s, p.0) {
        s
    } else {
        after_audio(s, p.0, p.1, p.2)
    }
}

/// The state after a run of packets, each with its time, its length and the encoder's answer.
pub open spec fn after_packets(s: WriterState, run: Seq<(i64, i64, bool)>) -> WriterState
    decreases run.len(),
{
    if run.len() == 0 {
        s
    } else {
        after_packet(after_packets(s, run.drop_last()), run.last())
    }
}

/// The times of the packets of a run that reach the encoder.
pub open spec fn times_handed_over(s: WriterState, run: Seq<(i64, i64, bool)>) -> Seq<i64>
    decreases run.len(),
{
    if run.len() == 0 {
        Seq::empty()
    } else {
        let earlier = times_handed_over(s, run.drop_last());
        if backwards(after_packets(s, run.drop_last()), run.last().0) {
            earlier
        } else {
            earlier.push(run.last().0)
        }
    }
}

/// Whatever times the packets carry, those that reach the encoder strictly increase.
pub proof fn law_audio_times_strictly_increase(s: WriterState, run: Seq<(i64, i64, bool)>)
    ensures
        ({
            let times = times_handed_over(s, run);
            &&& forall|i: int, j: int|
                0 <= i < j < times.len() ==> #[trigger] times[i] < #[trigger] times[j]
            &&& forall|i: int| 0 <= i < times.len() ==> s.last_audio_pts < #[trigger] times[i]
            &&& after_packets(s, run).last_audio_pts == (if times.len() == 0 {
                s.last_audio_pts
            } else {
                times.last()
            })
        }),
    decreases run.len(),
{
    if run.len() > 0 {
        law_audio_times_strictly_increase(s, run.drop_last());
        let earlier = times_handed_over(s, run.drop_last());
        let times = times_handed_over(s, run);
        assert forall|i: int| 0 <= i < times.len() implies s.last_audio_pts < #[trigger] times[i] by {
            if i < earlier.len() {
                assert(times[i] == earlier[i]);
            } else if earlier.len() > 0 {
                assert(s.last_audio_pts < earlier[earlier.len() - 1]);
            }
        }
        assert forall|i: int, j: int| 0 <= i < j < times.len() implies #[trigger] times[i]
            < #[trigger] times[j] by {
            assert(times[i] == earlier[i]);
            if j < earlier.len() {
                assert(times[j] == earlier[j]);
            } else if i < earlier.len() - 1 {
                assert(earlier[i] < earlier[earlier.len() - 1]);
            }
        }
    }
}

/// The silence at the end continues the track: its first block lies behind the last packet, and
/// each block starts where the one before it ended.
pub proof fn law_tail_continues_the_track(fmt: AudioFormat, s: WriterState, k: int)
    requires
        !tail_blocked(s),
        0 <= k,
    ensures
        s.last_audio_pts < tail_start(s),
        tail_start(s) + k * tail_duration(fmt) < tail_start(s) + (k + 1) * tail_duration(fmt),
        tail_start(s) + (k + 1) * tail_duration(fmt) == tail_start(s) + k * tail_duration(fmt)
            + tail_duration(fmt),
{
    lemma_tail_duration_is_positive(fmt);
    assert((k + 1) * tail_duration(fmt) == k * tail_duration(fmt) + tail_duration(fmt))
        by (nonlinear_arith);
}

/// A packet that the encoder takes moves the end of the audio to its own end, and the next one has
/// to be later than it. A refusal ends the audio and keeps its end.
pub proof fn law_audio_ends_with_its_last_packet(s: WriterState, pts: i64, duration: i64)
    requires
        i64::MIN <= pts + duration <= i64::MAX,
    ensures
        ({
            let taken = after_audio(s, pts, duration, true);
            let refused = after_audio(s, pts, duration, false);
            &&& taken.audio_end == pts + duration
            &&& taken.audio_done == s.audio_done && taken.audio_failed == s.audio_failed
            &&& refused.audio_end == s.audio_end
            &&& refused.audio_done && refused.audio_failed
            &&& taken.video_end == s.video_end && refused.video_end == s.video_end
            &&& forall|next: i64| #[trigger] backwards(taken, next) <==> next <= pts
            &&& forall|next: i64| #[trigger] backwards(refused, next) <==> next <= pts
        }),
{
}

/// Silence follows the track without a hole: its first block starts at the end of the audio, and
/// each of the others where the one before it ends. A block is a fiftieth of a second of zeros.
pub proof fn law_tail_blocks_follow_each_other(fmt: AudioFormat, s: WriterState, i: int)
    requires
        0 <= i < tail_blocks(tail_duration(fmt), tail_start(s), s.video_end as int),
        s.video_end > 0,
        fmt.sample_rate >= 50,
    ensures
        s.audio_end >= 0 ==> tail_start(s) == s.audio_end,
        tail_start(s) >= 0,
        tail_packet(fmt, tail_start(s), i) matches Request::Audio {
            chunk,
            format,
            pts,
            duration,
        } && {
            &&& format == fmt
            &&& i == 0 ==> pts.0 == tail_start(s)
            &&& i > 0 ==> (tail_packet(fmt, tail_start(s), i - 1) matches Request::Audio {
                pts: earlier,
                duration: length,
                ..
            } && earlier.0 + length.0 == pts.0)
            &&& pts.0 + duration.0 <= s.video_end
            &&& 0 < duration.0
            &&& chunk.frames * 50 <= fmt.sample_rate < chunk.frames * 50 + 50
            &&& duration.0 * fmt.sample_rate <= chunk.frames * 10_000_000 < (duration.0 + 1)
                * fmt.sample_rate
            &&& chunk.pcm.len() == chunk.frames * fmt.channels
            &&& forall|k: int| 0 <= k < chunk.pcm.len() ==> #[trigger] chunk.pcm[k] == 0
        },
{
    let d = tail_duration(fmt);
    let rate = fmt.sample_rate as int;
    lemma_tail_duration_is_positive(fmt);
    lemma_blocks(d, tail_start(s), s.video_end as int, i);
    assert(i * d >= 0) by (nonlinear_arith)
        requires
            i >= 0,
            d > 0,
    ;
    assert((i - 1) * d == i * d - d) by (nonlinear_arith);
    assert(i == 0 ==> i * d == 0) by (nonlinear_arith);
    if i > 0 {
        assert((i - 1) * d >= 0) by (nonlinear_arith)
            requires
                i >= 1,
                d > 0,
        ;
    }
    let frames = tail_frames(fmt);
    vstd::arithmetic::div_mod::lemma_fundamental_div_mod(frames * 10_000_000, rate);
    vstd::arithmetic::div_mod::lemma_mod_bound(frames * 10_000_000, rate);
    assert(d * rate <= frames * 10_000_000 < (d + 1) * rate) by (nonlinear_arith)
        requires
            frames * 10_000_000 == rate * d + (frames * 10_000_000) % rate,
            0 <= (frames * 10_000_000) % rate < rate,
    ;
    assert(frames * fmt.channels >= 0) by (nonlinear_arith)
        requires
            frames >= 0,
    ;
}

/// A tail is blocked exactly where its first block would not be later than the last packet.
pub proof fn law_blocked_tail_would_go_back(s: WriterState)
    ensures
        tail_blocked(s) <==> tail_start(s) <= s.last_audio_pts,
{
}

/// Over a recording the times of the video strictly increase, and so do those of the sound that was
/// taken: two requests of a file are in the order of their times.
pub proof fn law_times_of_a_file_strictly_increase(
    log: Seq<Exchange>,
    video_end: i64,
    last_audio_pts: i64,
    i: int,
    j: int,
)
    requires
        0 <= i < j < log.len(),
    ensures
        shown_in_order(log, video_end) ==> match (log[i].request, log[j].request) {
            (Request::Video(a), Request::Video(b)) => {
                &&& a.pts.0 < b.pts.0
                &&& a.pts.0 + a.duration.0 <= b.pts.0
                &&& b.pts.0 + b.duration.0 <= video_end
            },
            _ => true,
        },
        forward(log, last_audio_pts) && log[i].refusal is None && log[j].refusal is None ==> match (
            log[i].request,
            log[j].request,
        ) {
            (Request::Audio { pts: a, .. }, Request::Audio { pts: b, .. }) => a.0 < b.0 && b.0
                <= last_audio_pts,
            _ => true,
        },
{
    if shown_in_order(log, video_end) && log[i].request is Video && log[j].request is Video {
        assert(log[i].request->Video_0.pts.0 + log[i].request->Video_0.duration.0
            <= log[j].request->Video_0.pts.0);
    }
    if forward(log, last_audio_pts) && log[i].is_sound() && log[j].is_sound() {
        assert(log[i].time() < log[j].time());
    }
}

/// A frame that is submitted is counted where it repeats the one before, and nothing else of the
/// books is touched but its time.
pub proof fn law_repeated_frames_are_counted(m: Metrics, pts: i64, duplicate: bool)
    requires
        m.encoded_duplicates < u64::MAX,
    ensures
        video_noted(m, pts, duplicate).video_last_pts_100ns == pts,
        video_noted(m, pts, duplicate).encoded_duplicates == m.encoded_duplicates + (if duplicate {
            1int
        } else {
            0int
        }),
        video_noted(m, pts, duplicate).frames_encoded == m.frames_encoded,
        video_noted(m, pts, duplicate).audio_last_pts_100ns == m.audio_last_pts_100ns,
{
}

/// Without an audio track or without video nothing is added to the file.
pub proof fn law_no_tail_without_sound_and_video(
    fmt: Option<AudioFormat>,
    s: WriterState,
    after: WriterState,
    m: Metrics,
    after_m: Metrics,
    log: Seq<Exchange>,
    after_log: Seq<Exchange>,
    padded: i64,
)
    requires
        tail_written(fmt, s, after, m, after_m, log, after_log, padded),
        fmt is None || s.video_end <= 0,
    ensures
        padded == 0,
        after == s,
        after_m == m,
        after_log == log,
{
}

/// Where the encoder takes every block the sound reaches the end of the video, but for less than a
/// block, or as far as the bound allows: the blocks follow the track, their times and counts are in
/// the books, and nothing that was asked before is lost.
pub proof fn law_tail_reaches_the_end_of_the_video(
    fmt: AudioFormat,
    s: WriterState,
    after: WriterState,
    m: Metrics,
    after_m: Metrics,
    log: Seq<Exchange>,
    after_log: Seq<Exchange>,
    padded: i64,
)
    requires
        tail_written(Some(fmt), s, after, m, after_m, log, after_log, padded),
        s.video_end > 0,
        tail_start(s) > s.last_audio_pts,
        forall|i: int|
            log.len() <= i < after_log.len() ==> (#[trigger] after_log[i]).refusal is None,
    ensures
        0 <= padded <= TAIL_PAD_MAX,
        s.video_end - (tail_start(s) + padded) < tail_duration(fmt) || padded + tail_duration(fmt)
            > TAIL_PAD_MAX,
        padded > 0 ==> {
            &&& tail_start(s) + padded <= s.video_end
            &&& after.last_audio_pts + tail_duration(fmt) == tail_start(s) + padded
            &&& after_m.audio_last_pts_100ns == tail_start(s) + padded
        },
        padded == 0 ==> after == s && after_m == m,
        after.video_end == s.video_end,
        after_log.len() >= log.len(),
        (after_log.len() - log.len()) * tail_duration(fmt) == padded,
        after_log.take(log.len() as int) == log,
{
    let d = tail_duration(fmt);
    let start = tail_start(s);
    let most = tail_blocks(d, start, s.video_end as int);
    lemma_tail_duration_is_positive(fmt);
    let (k, refusal) = choose|k: int, refusal: Option<MediaError>|
        0 <= k <= most && (refusal is None <==> k == most) && padded == k * d && after
            == padded_state(s, d, k) && after_m == padded_metrics(m, s, d, k) && after_log == log
            + #[trigger] tail_log(fmt, start, k, refusal);
    if refusal is Some {
        let last = after_log.len() - 1;
        assert(after_log[last].refusal is Some);
    }
    assert(tail_log(fmt, start, k, refusal).len() == k);
    assert(after_log.take(log.len() as int) =~= log);
    lemma_blocks(d, start, s.video_end as int, k);
    law_tail_is_bounded(fmt, s, k);
    if k > 0 {
        assert((k - 1) * d == k * d - d) by (nonlinear_arith);
        assert((k - 1) * d >= 0) by (nonlinear_arith)
            requires
                k >= 1,
                d > 0,
        ;
    } else {
        assert(k * d == 0) by (nonlinear_arith)
            requires
                k == 0,
        ;
    }
}

/// A file is completed in order: the last thing asked of the encoder is to write out its frames,
/// and where it refused sound before no sound is added.
pub proof fn law_files_are_flushed_last<E: VideoEncoder + ?Sized>(
    e: Box<E>,
    before: Seq<Exchange>,
    fmt: Option<AudioFormat>,
    states: (WriterState, WriterState),
    metrics: (Metrics, Metrics),
    r: (MediaResult<FinalizeOutcome>, i64),
)
    requires
        completed(e, before, fmt, states, metrics, r),
    ensures
        e.log().len() > 0,
        e.log().last().request is Flush,
        states.0.audio_failed ==> r.1 == 0 && e.log().drop_last() == before && states.1 == states.0,
        e.log().last().refusal matches Some(why) ==> r.0 == Err::<FinalizeOutcome, MediaError>(why),
        e.log().last().refusal is None ==> e.can_end_as(r.0),
{
}

} // verus!
