//! The recorder: configuration, state, counters, and what they are reported as.
//!
//! A recording runs on several threads: the capture callback puts the newest frame into a slot,
//! the tick loop ([`tick`]) turns slots into a constant frame rate and feeds a bounded queue, the
//! audio loop ([`sound`]) feeds a second one, and a single writer ([`writer`]) hands both to the
//! encoder. Here is what they share.

pub mod output;
pub mod pipeline;
pub mod session;
pub mod sound;
pub mod tick;
pub mod writer;

use crate::audio::gain::{Gain, ONE_BITS};
use crate::audio::mixer::{AudioMixer, SourceMetrics};
use crate::audio::source::AudioSourceKind;
use crate::audio::AudioSourceSpec;
use crate::consts::{DEFAULT_FPS, DEGRADED_DROP_PERCENT, MAX_RECORDING_SECS};
use crate::convert::Region;
use crate::counter::{bump, next_count};
use crate::encoder::{ConfigureOutcome, FinalizeOutcome, HardwarePreference};
use crate::error::{MediaError, MediaResult};
use crate::time::quotient_toward_zero;
use vstd::prelude::*;

verus! {

#[derive(Debug, Clone, Copy, PartialEq, Eq, Structural)]
pub enum EngineState {
    Idle,
    Preparing,
    Recording,
    Stopping,
    Error,
}

impl EngineState {
    pub open spec fn label(self) -> Seq<char> {
        match self {
            EngineState::Idle => "Idle"@,
            EngineState::Preparing => "Preparing"@,
            EngineState::Recording => "Recording"@,
            EngineState::Stopping => "Stopping"@,
            EngineState::Error => "Error"@,
        }
    }

    pub fn as_str(&self) -> (s: &'static str)
        ensures
            s@ == self.label(),
    {
        match self {
            EngineState::Idle => "Idle",
            EngineState::Preparing => "Preparing",
            EngineState::Recording => "Recording",
            EngineState::Stopping => "Stopping",
            EngineState::Error => "Error",
        }
    }
}

#[derive(Debug)]
pub struct RecordingConfig {
    pub display_id: String,
    pub fps: u32,
    /// Without a value the bit rate follows from size and frame rate.
    pub bitrate: Option<u32>,
    pub output_dir: String,
    pub hardware: HardwarePreference,
    /// Limit on the length of the recording in seconds.
    pub max_duration_secs: u64,
    /// The part of the display to record, or all of it.
    pub region: Option<Region>,
    /// Record sound. A missing device never fails a recording.
    pub audio: bool,
    pub audio_sources: Vec<AudioSourceSpec>,
}

impl RecordingConfig {
    /// The defaults: the whole display with what the system plays, for up to two hours.
    pub fn new(display_id: String, output_dir: String) -> (cfg: RecordingConfig)
        ensures
            cfg.display_id == display_id,
            cfg.output_dir == output_dir,
            cfg.fps == DEFAULT_FPS,
            cfg.bitrate is None,
            cfg.hardware == HardwarePreference::PreferHardware,
            cfg.max_duration_secs == MAX_RECORDING_SECS,
            cfg.region is None,
            cfg.audio,
            cfg.audio_sources@ == seq![
                AudioSourceSpec { kind: AudioSourceKind::SystemLoopback, gain: Gain(ONE_BITS) },
            ],
    {
        RecordingConfig {
            display_id,
            fps: DEFAULT_FPS,
            bitrate: None,
            output_dir,
            hardware: HardwarePreference::PreferHardware,
            max_duration_secs: MAX_RECORDING_SECS,
            region: None,
            audio: true,
            audio_sources: vec![
                AudioSourceSpec { kind: AudioSourceKind::SystemLoopback, gain: Gain(ONE_BITS) },
            ],
        }
    }
}

/// Why a recording ended.
#[derive(Debug, Clone, Copy, PartialEq, Eq, Structural)]
pub enum StopReason {
    UserRequested,
    /// The configured length was reached; the file is complete.
    DurationLimit,
    /// The disk ran low; the recording ended early so that the file is complete.
    DiskSpaceLow,
}

impl StopReason {
    pub open spec fn label(self) -> Seq<char> {
        match self {
            StopReason::UserRequested => "UserRequested"@,
            StopReason::DurationLimit => "DurationLimit"@,
            StopReason::DiskSpaceLow => "DiskSpaceLow"@,
        }
    }

    pub fn as_str(&self) -> (s: &'static str)
        ensures
            s@ == self.label(),
    {
        match self {
            StopReason::UserRequested => "UserRequested",
            StopReason::DurationLimit => "DurationLimit",
            StopReason::DiskSpaceLow => "DiskSpaceLow",
        }
    }
}

/// Counters of one audio source.
#[derive(Debug)]
pub struct AudioSourceLive {
    pub kind: String,
    pub endpoint: String,
    pub metrics: SourceMetrics,
}

/// Counters of a recording.
#[derive(Debug)]
pub struct Metrics {
    pub frames_captured: u64,
    /// Captured frames that a newer one replaced before they were used; not an error.
    pub frames_overwritten: u64,
    pub frames_scheduled: u64,
    pub frames_duplicated: u64,
    /// Frames dropped because the encoder did not keep up, after the startup window.
    pub frames_dropped_backpressure: u64,
    /// Frames dropped within the startup window.
    pub frames_dropped_startup: u64,
    pub frames_encoded: u64,
    pub encoded_duplicates: u64,
    pub audio_chunks: u64,
    /// Audio packets dropped because their queue was full; audio gives way to video.
    pub frames_dropped_audio: u64,
    /// Audio packets refused because their time did not advance.
    pub audio_dropped_backwards: u64,
    /// Seconds in which the capture had been silent for long.
    pub capture_idle_checks: u64,
    pub capture_idle_ms_max: u64,
    pub audio_peak: u64,
    /// Peak of the running second.
    pub audio_peak_1s: u64,
    /// Peak of the last complete second.
    pub audio_peak_last_sec: u64,
    pub audio_sources: Vec<AudioSourceLive>,
    /// Blocks of silence: slots that replaced missing samples, and the tail of the track.
    pub audio_filler_blocks: u64,
    /// End of the audio track so far.
    pub audio_last_pts_100ns: i64,
    /// Start of the video frame submitted last.
    pub video_last_pts_100ns: i64,
    pub timestamp_anomalies: u64,
    /// Captured frames that lay too far ahead of their slot.
    pub frames_rejected_future: u64,
    pub slots_late: u64,
    pub elapsed_100ns: u64,
    /// Time spent in the encoder, in hundredths of a millisecond.
    pub submit_ms_x100_sum: u64,
    pub submit_count: u64,
    /// `frames_scheduled` at the start of the window of the degraded flag.
    pub window_scheduled: u64,
    /// `frames_dropped_backpressure` at the start of that window.
    pub window_dropped: u64,
}

impl Metrics {
    /// No source reported, every counter zero.
    pub open spec fn fresh(self) -> bool {
        &&& self.audio_sources@.len() == 0
        &&& self == (Metrics {
            frames_captured: 0,
            frames_overwritten: 0,
            frames_scheduled: 0,
            frames_duplicated: 0,
            frames_dropped_backpressure: 0,
            frames_dropped_startup: 0,
            frames_encoded: 0,
            encoded_duplicates: 0,
            audio_chunks: 0,
            frames_dropped_audio: 0,
            audio_dropped_backwards: 0,
            capture_idle_checks: 0,
            capture_idle_ms_max: 0,
            audio_peak: 0,
            audio_peak_1s: 0,
            audio_peak_last_sec: 0,
            audio_filler_blocks: 0,
            audio_last_pts_100ns: 0,
            video_last_pts_100ns: 0,
            timestamp_anomalies: 0,
            frames_rejected_future: 0,
            slots_late: 0,
            elapsed_100ns: 0,
            submit_ms_x100_sum: 0,
            submit_count: 0,
            window_scheduled: 0,
            window_dropped: 0,
            audio_sources: self.audio_sources,
        })
    }
}

impl Default for Metrics {
    fn default() -> (m: Metrics)
        ensures
            m.fresh(),
    {
        Metrics {
            frames_captured: 0,
            frames_overwritten: 0,
            frames_scheduled: 0,
            frames_duplicated: 0,
            frames_dropped_backpressure: 0,
            frames_dropped_startup: 0,
            frames_encoded: 0,
            encoded_duplicates: 0,
            audio_chunks: 0,
            frames_dropped_audio: 0,
            audio_dropped_backwards: 0,
            capture_idle_checks: 0,
            capture_idle_ms_max: 0,
            audio_peak: 0,
            audio_peak_1s: 0,
            audio_peak_last_sec: 0,
            audio_sources: Vec::new(),
            audio_filler_blocks: 0,
            audio_last_pts_100ns: 0,
            video_last_pts_100ns: 0,
            timestamp_anomalies: 0,
            frames_rejected_future: 0,
            slots_late: 0,
            elapsed_100ns: 0,
            submit_ms_x100_sum: 0,
            submit_count: 0,
            window_scheduled: 0,
            window_dropped: 0,
        }
    }
}

/// The counters after one dropped frame.
pub open spec fn with_drop(m: Metrics, startup: bool) -> Metrics {
    if startup {
        Metrics { frames_dropped_startup: next_count(m.frames_dropped_startup), ..m }
    } else {
        Metrics { frames_dropped_backpressure: next_count(m.frames_dropped_backpressure), ..m }
    }
}

/// Counts a dropped frame. Drops within the startup window are kept apart, so that the other
/// counter shows the steady state only.
pub fn count_drop(metrics: &mut Metrics, startup: bool)
    ensures
        *final(metrics) == with_drop(*old(metrics), startup),
{
    if startup {
        bump(&mut metrics.frames_dropped_startup);
    } else {
        bump(&mut metrics.frames_dropped_backpressure);
    }
}

/// A drop is counted once: the two counters together grow by one.
pub proof fn law_drops_are_counted_once(m: Metrics, startup: bool)
    requires
        m.frames_dropped_startup < u64::MAX,
        m.frames_dropped_backpressure < u64::MAX,
    ensures
        with_drop(m, startup).frames_dropped_startup + with_drop(
            m,
            startup,
        ).frames_dropped_backpressure == m.frames_dropped_startup + m.frames_dropped_backpressure
            + 1,
{
}

/// A captured frame was put into the slot; `replaced` where an unused one lay there.
pub fn frame_captured(metrics: &mut Metrics, replaced: bool)
    ensures
        *final(metrics) == (Metrics {
            frames_captured: next_count(old(metrics).frames_captured),
            frames_overwritten: if replaced {
                next_count(old(metrics).frames_overwritten)
            } else {
                old(metrics).frames_overwritten
            },
            ..*old(metrics)
        }),
{
    if replaced {
        bump(&mut metrics.frames_overwritten);
    }
    bump(&mut metrics.frames_captured);
}

/// Notes the time since the start of the recording.
pub fn record_elapsed(metrics: &mut Metrics, now_ns: u64)
    ensures
        *final(metrics) == (Metrics { elapsed_100ns: now_ns / 100, ..*old(metrics) }),
{
    metrics.elapsed_100ns = now_ns / 100;
}

/// The entry of a source is the report of its kind, endpoint and counters.
pub open spec fn reports(
    live: AudioSourceLive,
    kind: AudioSourceKind,
    endpoint: Seq<char>,
    m: SourceMetrics,
) -> bool {
    live.kind@ == kind.label() && live.endpoint@ == endpoint && live.metrics == m
}

/// Sum of a counter over all sources, modulo 2^64.
pub open spec fn source_sum(list: Seq<SourceMetrics>, pick: spec_fn(SourceMetrics) -> u64) -> int
    decreases list.len(),
{
    if list.len() == 0 {
        0
    } else {
        (source_sum(list.drop_last(), pick) + pick(list.last())) % 0x1_0000_0000_0000_0000
    }
}

/// Largest value of a counter over all sources, or 0.
pub open spec fn source_max(list: Seq<SourceMetrics>, pick: spec_fn(SourceMetrics) -> u64) -> u64
    decreases list.len(),
{
    if list.len() == 0 {
        0
    } else {
        let earlier = source_max(list.drop_last(), pick);
        if pick(list.last()) > earlier {
            pick(list.last())
        } else {
            earlier
        }
    }
}

/// The counters of all sources of a mixer.
pub open spec fn all_source_metrics(mixer: AudioMixer) -> Seq<SourceMetrics> {
    Seq::new(mixer.sources().len(), |i: int| mixer.sources()[i].state().metrics)
}

/// Publishes the counters of every source and their totals: sums of the slots, maxima of the
/// peaks.
pub fn publish_audio_metrics(mixer: &AudioMixer, metrics: &mut Metrics)
    ensures
        final(metrics).audio_sources.len() == mixer.sources().len(),
        forall|i: int|
            0 <= i < mixer.sources().len() ==> reports(
                #[trigger] final(metrics).audio_sources@[i],
                mixer.sources()[i].identity().0,
                mixer.sources()[i].identity().1,
                mixer.sources()[i].state().metrics,
            ),
        *final(metrics) == (Metrics {
            audio_sources: final(metrics).audio_sources,
            audio_chunks: source_sum(
                all_source_metrics(*mixer),
                |m: SourceMetrics| m.chunks,
            ) as u64,
            audio_filler_blocks: source_sum(
                all_source_metrics(*mixer),
                |m: SourceMetrics| m.filler_blocks,
            ) as u64,
            audio_peak: source_max(all_source_metrics(*mixer), |m: SourceMetrics| m.peak),
            audio_peak_1s: source_max(
                all_source_metrics(*mixer),
                |m: SourceMetrics| m.peak_last_sec,
            ),
            ..*old(metrics)
        }),
{
    let list: Vec<(AudioSourceKind, String, SourceMetrics)> = mixer.source_metrics();
    let ghost all = all_source_metrics(*mixer);
    let ghost chunks_of = |m: SourceMetrics| m.chunks;
    let ghost filler_of = |m: SourceMetrics| m.filler_blocks;
    let ghost peak_of = |m: SourceMetrics| m.peak;
    let ghost peak1_of = |m: SourceMetrics| m.peak_last_sec;
    let mut live: Vec<AudioSourceLive> = Vec::new();
    let mut chunks: u64 = 0;
    let mut filler: u64 = 0;
    let mut peak: u64 = 0;
    let mut peak1: u64 = 0;
    let mut i: usize = 0;
    while i < list.len()
        invariant
            i <= list.len(),
            list.len() == mixer.sources().len(),
            all == all_source_metrics(*mixer),
            chunks_of == (|m: SourceMetrics| m.chunks),
            filler_of == (|m: SourceMetrics| m.filler_blocks),
            peak_of == (|m: SourceMetrics| m.peak),
            peak1_of == (|m: SourceMetrics| m.peak_last_sec),
            forall|j: int|
                0 <= j < list.len() ==> {
                    &&& (#[trigger] list@[j]).0 == mixer.sources()[j].identity().0
                    &&& list@[j].1@ == mixer.sources()[j].identity().1
                    &&& list@[j].2 == mixer.sources()[j].state().metrics
                },
            live.len() == i,
            forall|j: int|
                0 <= j < i ==> reports(
                    #[trigger] live@[j],
                    mixer.sources()[j].identity().0,
                    mixer.sources()[j].identity().1,
                    mixer.sources()[j].state().metrics,
                ),
            chunks == source_sum(all.take(i as int), chunks_of),
            filler == source_sum(all.take(i as int), filler_of),
            peak == source_max(all.take(i as int), peak_of),
            peak1 == source_max(all.take(i as int), peak1_of),
        decreases list.len() - i,
    {
        let entry: &(AudioSourceKind, String, SourceMetrics) = &list[i];
        let m: SourceMetrics = entry.2;
        assert(all.take(i + 1).drop_last() == all.take(i as int));
        assert(all.take(i + 1).last() == m);
        chunks = chunks.wrapping_add(m.chunks);
        filler = filler.wrapping_add(m.filler_blocks);
        if m.peak > peak {
            peak = m.peak;
        }
        if m.peak_last_sec > peak1 {
            peak1 = m.peak_last_sec;
        }
        live.push(
            AudioSourceLive {
                kind: entry.0.as_str().to_owned(),
                endpoint: entry.1.clone(),
                metrics: m,
            },
        );
        i = i + 1;
    }
    assert(all.take(i as int) == all);
    metrics.audio_sources = live;
    metrics.audio_chunks = chunks;
    metrics.audio_filler_blocks = filler;
    metrics.audio_peak = peak;
    metrics.audio_peak_1s = peak1;
}

/// The counters of one source as they are shown.
#[derive(Debug)]
pub struct AudioSourceStatus {
    pub kind: String,
    pub endpoint: String,
    pub chunks: u64,
    pub filler_blocks: u64,
    /// Slots that hold samples of the device.
    pub real_blocks: u64,
    pub peak: u64,
    pub peak_last_sec: u64,
    pub dropped_backwards: u64,
}

/// The shown counters are those of the source.
pub open spec fn shows(s: AudioSourceStatus, live: AudioSourceLive) -> bool {
    &&& s.kind@ == live.kind@
    &&& s.endpoint@ == live.endpoint@
    &&& s.chunks == live.metrics.chunks
    &&& s.filler_blocks == live.metrics.filler_blocks
    &&& s.real_blocks == (if live.metrics.chunks >= live.metrics.filler_blocks {
        live.metrics.chunks - live.metrics.filler_blocks
    } else {
        0
    })
    &&& s.peak == live.metrics.peak
    &&& s.peak_last_sec == live.metrics.peak_last_sec
    &&& s.dropped_backwards == live.metrics.dropped_backwards
}

pub open spec fn shows_all(list: Seq<AudioSourceStatus>, live: Seq<AudioSourceLive>) -> bool {
    &&& list.len() == live.len()
    &&& forall|i: int| 0 <= i < live.len() ==> shows(#[trigger] list[i], live[i])
}

fn source_statuses(live: &Vec<AudioSourceLive>) -> (list: Vec<AudioSourceStatus>)
    ensures
        shows_all(list@, live@),
{
    let mut list: Vec<AudioSourceStatus> = Vec::new();
    let mut i: usize = 0;
    while i < live.len()
        invariant
            i <= live.len(),
            list.len() == i,
            forall|j: int| 0 <= j < i ==> shows(#[trigger] list@[j], live@[j]),
        decreases live.len() - i,
    {
        let s: &AudioSourceLive = &live[i];
        list.push(
            AudioSourceStatus {
                kind: s.kind.clone(),
                endpoint: s.endpoint.clone(),
                chunks: s.metrics.chunks,
                filler_blocks: s.metrics.filler_blocks,
                real_blocks: s.metrics.real_blocks(),
                peak: s.metrics.peak,
                peak_last_sec: s.metrics.peak_last_sec,
                dropped_backwards: s.metrics.dropped_backwards,
            },
        );
        i = i + 1;
    }
    list
}

/// A recording as it is shown while it runs.
#[derive(Debug)]
pub struct RecordingStatus {
    pub state: EngineState,
    pub elapsed_ms: i64,
    pub frames_captured: u64,
    pub frames_overwritten: u64,
    pub frames_scheduled: u64,
    pub frames_duplicated: u64,
    pub frames_dropped_backpressure: u64,
    pub frames_dropped_startup: u64,
    pub audio_dropped_backwards: u64,
    pub capture_idle_checks: u64,
    pub capture_idle_ms_max: u64,
    pub audio_peak: u64,
    pub audio_peak_1s: u64,
    pub audio_peak_last_sec: u64,
    pub audio_sources: Vec<AudioSourceStatus>,
    pub audio_chunks: u64,
    pub audio_filler_blocks: u64,
    pub frames_encoded: u64,
    pub timestamp_anomalies: u64,
    pub slots_late: u64,
    pub error_code: Option<&'static str>,
    pub error_message: Option<String>,
    pub output_path: Option<String>,
    pub actual: Option<ConfigureOutcome>,
    /// More than five percent of the frames were dropped within the last ten seconds.
    pub degraded: bool,
}

/// A finished recording.
#[derive(Debug)]
pub struct RecorderOutcome {
    pub finalize: FinalizeOutcome,
    pub elapsed_ms: i64,
    pub frames_scheduled: u64,
    pub frames_duplicated: u64,
    pub frames_dropped_backpressure: u64,
    pub frames_dropped_startup: u64,
    pub audio_dropped_backwards: u64,
    pub capture_idle_checks: u64,
    pub capture_idle_ms_max: u64,
    pub audio_peak: u64,
    pub audio_peak_1s: u64,
    pub audio_peak_last_sec: u64,
    pub audio_sources: Vec<AudioSourceStatus>,
    pub audio_filler_blocks: u64,
    pub audio_chunks: u64,
    pub frames_captured: u64,
    pub timestamp_anomalies: u64,
    pub configured: ConfigureOutcome,
    pub stop_reason: StopReason,
    pub video_last_pts_100ns: i64,
    pub audio_last_pts_100ns: i64,
}

/// Milliseconds of a time in units of 100 ns, read as a signed number and rounded toward zero.
pub open spec fn elapsed_ms_of(elapsed_100ns: u64) -> i64 {
    quotient_toward_zero((elapsed_100ns as i64) as int, 10_000) as i64
}

fn elapsed_ms(elapsed_100ns: u64) -> (ms: i64)
    ensures
        ms == elapsed_ms_of(elapsed_100ns),
{
    ms_of(
        #[verifier::truncate]
        (elapsed_100ns as i64),
    )
}

/// A time in units of 100 ns as milliseconds, rounded toward zero.
pub fn ms_of(ticks: i64) -> (ms: i64)
    ensures
        ms == quotient_toward_zero(ticks as int, 10_000),
{
    if ticks >= 0 {
        (ticks as u64 / 10_000) as i64
    } else {
        let size: u64 = if ticks == i64::MIN {
            0x8000_0000_0000_0000
        } else {
            (-ticks) as u64
        };
        -((size / 10_000) as i64)
    }
}

/// More than the accepted share of the scheduled frames was dropped.
pub open spec fn drops_degrade(scheduled: u64, dropped: u64) -> bool {
    scheduled > 0 && dropped * 100 > scheduled * DEGRADED_DROP_PERCENT
}

/// What a counter has grown by since the start of the window.
pub open spec fn in_window(total: u64, start: u64) -> u64 {
    if total >= start {
        (total - start) as u64
    } else {
        0
    }
}

/// The flag is about the window only: where no frame was dropped since its start, the recording
/// is not degraded, whatever was dropped before.
pub proof fn law_old_drops_do_not_degrade(m: Metrics)
    requires
        m.window_dropped == m.frames_dropped_backpressure,
    ensures
        !drops_degrade(
            in_window(m.frames_scheduled, m.window_scheduled),
            in_window(m.frames_dropped_backpressure, m.window_dropped),
        ),
{
}

pub fn is_degraded(scheduled: u64, dropped: u64) -> (r: bool)
    ensures
        r == drops_degrade(scheduled, dropped),
{
    assert(scheduled * DEGRADED_DROP_PERCENT <= u64::MAX * 5);
    scheduled > 0 && dropped as u128 * 100 > scheduled as u128 * DEGRADED_DROP_PERCENT as u128
}

/// Two configurations say the same.
pub open spec fn same_configuration(a: ConfigureOutcome, b: ConfigureOutcome) -> bool {
    &&& a.width == b.width
    &&& a.height == b.height
    &&& a.fps == b.fps
    &&& a.bitrate == b.bitrate
    &&& a.profile@ == b.profile@
    &&& a.hardware_requested == b.hardware_requested
    &&& a.hardware_mft_found == b.hardware_mft_found
    &&& a.encoder_params_applied == b.encoder_params_applied
    &&& a.notes@ == b.notes@
}

fn copy_configuration(c: &ConfigureOutcome) -> (r: ConfigureOutcome)
    ensures
        same_configuration(r, *c),
{
    let notes: Vec<String> = c.notes.clone();
    assert(notes@ =~= c.notes@) by {
        assert forall|i: int| 0 <= i < notes@.len() implies notes@[i] == c.notes@[i] by {
            assert(cloned::<String>(c.notes@[i], notes@[i]));
        }
    }
    ConfigureOutcome {
        width: c.width,
        height: c.height,
        fps: c.fps,
        bitrate: c.bitrate,
        profile: c.profile.clone(),
        hardware_requested: c.hardware_requested,
        hardware_mft_found: c.hardware_mft_found,
        encoder_params_applied: c.encoder_params_applied,
        notes,
    }
}

/// An error as it is kept: its code and its message in one text.
pub open spec fn kept_error_text(e: MediaError) -> Seq<char> {
    "["@ + e.code_text() + "] "@ + e.message_text()
}

/// A copy of an error for later reports.
pub fn recreate_error(e: &MediaError) -> (r: MediaError)
    ensures
        r matches MediaError::Internal(text) && text@ == kept_error_text(*e),
{
    let message: String = e.message();
    MediaError::Internal(
        String::from_str("[").concat(e.code()).concat("] ").concat(message.as_str()),
    )
}

/// The state after the end of a recording was asked for.
pub open spec fn stop_requested(state: EngineState) -> EngineState {
    if state == EngineState::Idle {
        EngineState::Idle
    } else {
        EngineState::Stopping
    }
}

/// To ask twice is to ask once.
pub proof fn law_stop_is_idempotent(state: EngineState)
    ensures
        stop_requested(stop_requested(state)) == stop_requested(state),
{
}

/// What the threads of a recording share, and what its status is made of.
#[derive(Debug)]
pub struct Recorder {
    pub state: EngineState,
    pub error: Option<MediaError>,
    pub metrics: Metrics,
    pub output_path: Option<String>,
    pub actual: Option<ConfigureOutcome>,
}

impl Recorder {
    /// A recording that is being prepared.
    pub fn new() -> (r: Recorder)
        ensures
            r.state == EngineState::Preparing,
            r.error is None,
            r.metrics.fresh(),
            r.output_path is None,
            r.actual is None,
    {
        Recorder {
            state: EngineState::Preparing,
            error: None,
            metrics: Metrics::default(),
            output_path: None,
            actual: None,
        }
    }

    /// The current status.
    pub fn status(&self) -> (s: RecordingStatus)
        ensures
            s.state == self.state,
            s.elapsed_ms == elapsed_ms_of(self.metrics.elapsed_100ns),
            s.frames_captured == self.metrics.frames_captured,
            s.frames_overwritten == self.metrics.frames_overwritten,
            s.frames_scheduled == self.metrics.frames_scheduled,
            s.frames_duplicated == self.metrics.frames_duplicated,
            s.frames_dropped_backpressure == self.metrics.frames_dropped_backpressure,
            s.frames_dropped_startup == self.metrics.frames_dropped_startup,
            s.audio_dropped_backwards == self.metrics.audio_dropped_backwards,
            s.capture_idle_checks == self.metrics.capture_idle_checks,
            s.capture_idle_ms_max == self.metrics.capture_idle_ms_max,
            s.audio_peak == self.metrics.audio_peak,
            s.audio_peak_1s == self.metrics.audio_peak_1s,
            s.audio_peak_last_sec == self.metrics.audio_peak_last_sec,
            shows_all(s.audio_sources@, self.metrics.audio_sources@),
            s.audio_chunks == self.metrics.audio_chunks,
            s.audio_filler_blocks == self.metrics.audio_filler_blocks,
            s.frames_encoded == self.metrics.frames_encoded,
            s.timestamp_anomalies == self.metrics.timestamp_anomalies,
            s.slots_late == self.metrics.slots_late,
            match self.error {
                Some(e) => (s.error_code matches Some(code) && code@ == e.code_text()) && (
                s.error_message matches Some(text) && text@ == e.message_text()),
                None => s.error_code is None && s.error_message is None,
            },
            s.output_path == self.output_path,
            match self.actual {
                Some(c) => s.actual matches Some(copy) && same_configuration(copy, c),
                None => s.actual is None,
            },
            s.degraded == drops_degrade(
                in_window(self.metrics.frames_scheduled, self.metrics.window_scheduled),
                in_window(self.metrics.frames_dropped_backpressure, self.metrics.window_dropped),
            ),
    {
        let m: &Metrics = &self.metrics;
        let error_code: Option<&'static str> = match &self.error {
            Some(e) => Some(e.code()),
            None => None,
        };
        let error_message: Option<String> = match &self.error {
            Some(e) => Some(e.message()),
            None => None,
        };
        let output_path: Option<String> = match &self.output_path {
            Some(p) => Some(p.clone()),
            None => None,
        };
        let actual: Option<ConfigureOutcome> = match &self.actual {
            Some(c) => Some(copy_configuration(c)),
            None => None,
        };
        RecordingStatus {
            state: self.state,
            elapsed_ms: elapsed_ms(m.elapsed_100ns),
            frames_captured: m.frames_captured,
            frames_overwritten: m.frames_overwritten,
            frames_scheduled: m.frames_scheduled,
            frames_duplicated: m.frames_duplicated,
            frames_dropped_backpressure: m.frames_dropped_backpressure,
            frames_dropped_startup: m.frames_dropped_startup,
            audio_dropped_backwards: m.audio_dropped_backwards,
            capture_idle_checks: m.capture_idle_checks,
            capture_idle_ms_max: m.capture_idle_ms_max,
            audio_peak: m.audio_peak,
            audio_peak_1s: m.audio_peak_1s,
            audio_peak_last_sec: m.audio_peak_last_sec,
            audio_sources: source_statuses(&m.audio_sources),
            audio_chunks: m.audio_chunks,
            audio_filler_blocks: m.audio_filler_blocks,
            frames_encoded: m.frames_encoded,
            timestamp_anomalies: m.timestamp_anomalies,
            slots_late: m.slots_late,
            error_code,
            error_message,
            output_path,
            actual,
            degraded: is_degraded(
                m.frames_scheduled.saturating_sub(m.window_scheduled),
                m.frames_dropped_backpressure.saturating_sub(m.window_dropped),
            ),
        }
    }

    /// Asks for the end of the recording and gives the state. A request that repeats one changes
    /// nothing; a recording that has ended by itself stays idle.
    pub fn request_stop(&mut self) -> (state: EngineState)
        ensures
            state == stop_requested(old(self).state),
            *final(self) == (Recorder { state: stop_requested(old(self).state), ..*old(self) }),
    {
        if self.state != EngineState::Idle {
            self.state = EngineState::Stopping;
        }
        self.state
    }

    /// The encoder is ready and frames are flowing.
    pub fn recording_started(&mut self, actual: ConfigureOutcome)
        ensures
            *final(self) == (Recorder {
                state: EngineState::Recording,
                actual: Some(actual),
                ..*old(self)
            }),
    {
        self.actual = Some(actual);
        self.state = EngineState::Recording;
    }

    /// Notes how the recording ended: a recording that ended well leaves the recorder idle, one
    /// that failed leaves its error.
    pub fn ended(&mut self, failure: Option<&MediaError>)
        ensures
            match failure {
                None => *final(self) == (Recorder { state: EngineState::Idle, ..*old(self) }),
                Some(e) => {
                    &&& *final(self) == (Recorder {
                        state: EngineState::Error,
                        error: final(self).error,
                        ..*old(self)
                    })
                    &&& final(self).error matches Some(MediaError::Internal(text)) && text@
                        == kept_error_text(*e)
                },
            },
    {
        match failure {
            None => {
                self.state = EngineState::Idle;
            },
            Some(e) => {
                self.error = Some(recreate_error(e));
                self.state = EngineState::Error;
            },
        }
    }

    /// The result of a finished recording, from the counters and the configuration in use.
    pub fn outcome(
        &self,
        finalize: FinalizeOutcome,
        stop_reason: StopReason,
        fallback: ConfigureOutcome,
    ) -> (o: RecorderOutcome)
        ensures
            o.finalize == finalize,
            o.stop_reason == stop_reason,
            o.elapsed_ms == elapsed_ms_of(self.metrics.elapsed_100ns),
            o.frames_scheduled == self.metrics.frames_scheduled,
            o.frames_duplicated == self.metrics.frames_duplicated,
            o.frames_dropped_backpressure == self.metrics.frames_dropped_backpressure,
            o.frames_dropped_startup == self.metrics.frames_dropped_startup,
            o.audio_dropped_backwards == self.metrics.audio_dropped_backwards,
            o.capture_idle_checks == self.metrics.capture_idle_checks,
            o.capture_idle_ms_max == self.metrics.capture_idle_ms_max,
            o.audio_peak == self.metrics.audio_peak,
            o.audio_peak_1s == self.metrics.audio_peak_1s,
            o.audio_peak_last_sec == self.metrics.audio_peak_last_sec,
            shows_all(o.audio_sources@, self.metrics.audio_sources@),
            o.audio_filler_blocks == self.metrics.audio_filler_blocks,
            o.audio_chunks == self.metrics.audio_chunks,
            o.frames_captured == self.metrics.frames_captured,
            o.timestamp_anomalies == self.metrics.timestamp_anomalies,
            o.video_last_pts_100ns == self.metrics.video_last_pts_100ns,
            o.audio_last_pts_100ns == self.metrics.audio_last_pts_100ns,
            match self.actual {
                Some(c) => same_configuration(o.configured, c),
                None => o.configured == fallback,
            },
    {
        let m: &Metrics = &self.metrics;
        RecorderOutcome {
            finalize,
            elapsed_ms: elapsed_ms(m.elapsed_100ns),
            frames_scheduled: m.frames_scheduled,
            frames_duplicated: m.frames_duplicated,
            frames_dropped_backpressure: m.frames_dropped_backpressure,
            frames_dropped_startup: m.frames_dropped_startup,
            audio_dropped_backwards: m.audio_dropped_backwards,
            capture_idle_checks: m.capture_idle_checks,
            capture_idle_ms_max: m.capture_idle_ms_max,
            audio_peak: m.audio_peak,
            audio_peak_1s: m.audio_peak_1s,
            audio_peak_last_sec: m.audio_peak_last_sec,
            audio_sources: source_statuses(&m.audio_sources),
            audio_filler_blocks: m.audio_filler_blocks,
            audio_chunks: m.audio_chunks,
            frames_captured: m.frames_captured,
            timestamp_anomalies: m.timestamp_anomalies,
            configured: match &self.actual {
                Some(c) => copy_configuration(c),
                None => fallback,
            },
            stop_reason,
            video_last_pts_100ns: m.video_last_pts_100ns,
            audio_last_pts_100ns: m.audio_last_pts_100ns,
        }
    }
}

/// A drop leaves every other counter as it was: one within the startup window does not show in the
/// steady state, one after it does not show in the startup.
pub proof fn law_drops_are_kept_apart(m: Metrics, startup: bool)
    ensures
        startup ==> with_drop(m, startup).frames_dropped_backpressure
            == m.frames_dropped_backpressure,
        !startup ==> with_drop(m, startup).frames_dropped_startup == m.frames_dropped_startup,
        with_drop(m, startup).frames_scheduled == m.frames_scheduled,
        with_drop(m, startup).frames_dropped_audio == m.frames_dropped_audio,
        with_drop(m, startup).frames_encoded == m.frames_encoded,
{
}

/// The sum over the sources does not depend on how they are grouped, and one more source adds its
/// own counter as long as the sum can be held.
pub proof fn law_sums_cover_every_source(
    list: Seq<SourceMetrics>,
    more: Seq<SourceMetrics>,
    pick: spec_fn(SourceMetrics) -> u64,
)
    ensures
        0 <= source_sum(list, pick) <= u64::MAX,
        source_sum(list + more, pick) == (source_sum(list, pick) + source_sum(more, pick))
            % 0x1_0000_0000_0000_0000,
        more.len() == 1 && source_sum(list, pick) + pick(more[0]) <= u64::MAX ==> source_sum(
            list + more,
            pick,
        ) == source_sum(list, pick) + pick(more[0]),
    decreases list.len() + more.len(),
{
    if list.len() > 0 {
        law_sums_cover_every_source(list.drop_last(), Seq::empty(), pick);
    }
    if more.len() > 0 {
        law_sums_cover_every_source(list, more.drop_last(), pick);
        assert((list + more).drop_last() == list + more.drop_last());
        assert((list + more).last() == more.last());
        if more.len() == 1 {
            assert(more.drop_last() == Seq::<SourceMetrics>::empty());
        }
    } else {
        assert(list + more == list);
    }
}

/// The maximum over the sources is reached by none of them less than it, and by one of them
/// exactly, unless all are zero.
pub proof fn law_maximum_is_the_loudest_source(
    list: Seq<SourceMetrics>,
    pick: spec_fn(SourceMetrics) -> u64,
)
    ensures
        forall|i: int| 0 <= i < list.len() ==> pick(#[trigger] list[i]) <= source_max(list, pick),
        source_max(list, pick) > 0 ==> exists|i: int|
            0 <= i < list.len() && pick(#[trigger] list[i]) == source_max(list, pick),
    decreases list.len(),
{
    if list.len() > 0 {
        let rest = list.drop_last();
        law_maximum_is_the_loudest_source(rest, pick);
        assert forall|i: int| 0 <= i < list.len() implies pick(#[trigger] list[i]) <= source_max(
            list,
            pick,
        ) by {
            if i < rest.len() {
                assert(rest[i] == list[i]);
            }
        }
        if source_max(rest, pick) > 0 {
            let i = choose|i: int|
                0 <= i < rest.len() && pick(#[trigger] rest[i]) == source_max(rest, pick);
            assert(list[i] == rest[i]);
        }
        assert(list[list.len() - 1] == list.last());
    }
}

/// The counters of the mixer are those of its sources, each at its place.
pub proof fn law_every_source_is_counted(mixer: AudioMixer)
    ensures
        all_source_metrics(mixer).len() == mixer.sources().len(),
        forall|i: int|
            0 <= i < mixer.sources().len() ==> (#[trigger] all_source_metrics(mixer)[i])
                == mixer.sources()[i].state().metrics,
{
}

/// What is shown of a source is what it counted; the slots with samples of the device and those
/// without are all its slots.
pub proof fn law_sources_are_shown_as_counted(
    list: Seq<AudioSourceStatus>,
    live: Seq<AudioSourceLive>,
    i: int,
)
    requires
        shows_all(list, live),
        0 <= i < live.len(),
    ensures
        list.len() == live.len(),
        list[i].kind@ == live[i].kind@,
        list[i].endpoint@ == live[i].endpoint@,
        list[i].chunks == live[i].metrics.chunks,
        list[i].filler_blocks == live[i].metrics.filler_blocks,
        list[i].filler_blocks <= list[i].chunks ==> list[i].real_blocks + list[i].filler_blocks
            == list[i].chunks,
        list[i].filler_blocks > list[i].chunks ==> list[i].real_blocks == 0,
        list[i].peak == live[i].metrics.peak,
        list[i].peak_last_sec == live[i].metrics.peak_last_sec,
        list[i].dropped_backwards == live[i].metrics.dropped_backwards,
{
}

/// The entry of a source carries its name, its endpoint and its counters.
pub proof fn law_reports_name_their_source(
    live: AudioSourceLive,
    kind: AudioSourceKind,
    endpoint: Seq<char>,
    m: SourceMetrics,
)
    requires
        reports(live, kind, endpoint, m),
    ensures
        live.kind@ == kind.label(),
        live.endpoint@ == endpoint,
        live.metrics.chunks == m.chunks,
        live.metrics.filler_blocks == m.filler_blocks,
        live.metrics.peak == m.peak,
        live.metrics.peak_last_sec == m.peak_last_sec,
        live.metrics.dropped_backwards == m.dropped_backwards,
{
}

/// A new recording has counted nothing.
pub proof fn law_counting_starts_at_zero(m: Metrics)
    requires
        m.fresh(),
    ensures
        m.frames_captured == 0 && m.frames_overwritten == 0 && m.frames_scheduled == 0,
        m.frames_duplicated == 0 && m.frames_dropped_backpressure == 0,
        m.frames_dropped_startup == 0 && m.frames_encoded == 0 && m.encoded_duplicates == 0,
        m.audio_chunks == 0 && m.frames_dropped_audio == 0 && m.audio_dropped_backwards == 0,
        m.capture_idle_checks == 0 && m.capture_idle_ms_max == 0,
        m.audio_peak == 0 && m.audio_peak_1s == 0 && m.audio_peak_last_sec == 0,
        m.audio_sources@.len() == 0 && m.audio_filler_blocks == 0,
        m.audio_last_pts_100ns == 0 && m.video_last_pts_100ns == 0,
        m.timestamp_anomalies == 0 && m.frames_rejected_future == 0 && m.slots_late == 0,
        m.elapsed_100ns == 0 && m.submit_ms_x100_sum == 0 && m.submit_count == 0,
        m.window_scheduled == 0 && m.window_dropped == 0,
{
}

/// The shown time is the whole milliseconds of the time that has passed.
pub proof fn law_shown_time_is_whole_milliseconds(elapsed_100ns: u64)
    requires
        elapsed_100ns <= i64::MAX,
    ensures
        elapsed_ms_of(elapsed_100ns) * 10_000 <= elapsed_100ns < (elapsed_ms_of(elapsed_100ns) + 1)
            * 10_000,
{
}

/// A recording is degraded where more than one frame in twenty was dropped since the start of the
/// window; one in twenty exactly is accepted.
pub proof fn law_one_in_twenty_is_accepted(m: Metrics)
    requires
        m.window_scheduled <= m.frames_scheduled,
        m.window_dropped <= m.frames_dropped_backpressure,
    ensures
        drops_degrade(
            in_window(m.frames_scheduled, m.window_scheduled),
            in_window(m.frames_dropped_backpressure, m.window_dropped),
        ) <==> {
            &&& m.frames_scheduled > m.window_scheduled
            &&& (m.frames_dropped_backpressure - m.window_dropped) * 20 > m.frames_scheduled
                - m.window_scheduled
        },
{
}

/// A configuration that is shown is the one in use, item for item.
pub proof fn law_shown_configuration_is_the_one_in_use(a: ConfigureOutcome, b: ConfigureOutcome)
    requires
        same_configuration(a, b),
    ensures
        a.width == b.width && a.height == b.height,
        a.fps == b.fps && a.bitrate == b.bitrate,
        a.profile@ == b.profile@,
        a.hardware_requested == b.hardware_requested,
        a.hardware_mft_found == b.hardware_mft_found,
        a.encoder_params_applied == b.encoder_params_applied,
        a.notes@ == b.notes@,
{
}

/// A kept error still says its code and its message, the code first.
pub proof fn law_kept_errors_say_code_and_message(e: MediaError)
    ensures
        kept_error_text(e).len() == e.code_text().len() + e.message_text().len() + 3,
        kept_error_text(e)[0] == '[',
        forall|i: int|
            0 <= i < e.code_text().len() ==> kept_error_text(e)[i + 1]
                == #[trigger] e.code_text()[i],
        kept_error_text(e)[e.code_text().len() as int + 1] == ']',
        kept_error_text(e)[e.code_text().len() as int + 2] == ' ',
        forall|i: int|
            0 <= i < e.message_text().len() ==> kept_error_text(e)[i + e.code_text().len() + 3]
                == #[trigger] e.message_text()[i],
{
    reveal_strlit("[");
    reveal_strlit("] ");
}

/// A request to stop ends what runs and wakes nothing up: an idle recorder stays idle, every other
/// one stops.
pub proof fn law_stop_ends_what_runs(state: EngineState)
    ensures
        stop_requested(state) == EngineState::Idle <==> state == EngineState::Idle,
        stop_requested(state) == EngineState::Stopping <==> state != EngineState::Idle,
{
}

/// What a counter has grown by is its distance to the start of the window; one that went back has
/// not grown.
pub proof fn law_growth_is_a_distance(total: u64, start: u64)
    ensures
        total >= start ==> in_window(total, start) == total - start,
        total < start ==> in_window(total, start) == 0,
{
}

} // verus!
