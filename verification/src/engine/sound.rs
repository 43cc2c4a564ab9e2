//! The audio loop: mixed packets get their media time and go into a bounded queue, and a signal
//! that stays weak is noticed.

use super::Metrics;
use crate::audio::mixer::SourceMetrics;
use crate::audio::source::AudioSourceKind;
use crate::audio::{AudioChunk, AudioFormat};
use crate::channel::{
    answer_of, bounded_packets, joined_packets, packet_capacity, try_send, Answer, Outlet,
    QueueEvent, SendOutcome,
};
use crate::consts::{AUDIO_WEAK_PEAK, AUDIO_WEAK_REWARN_SECS, AUDIO_WEAK_SECS};
use crate::counter::{bump, next_count};
use crate::error::{MediaError, MediaResult};
use crate::text::{parse_number, parsed_number};
use crate::time::{converted_once, MfTime100ns, Srt100ns, Timeline};
use vstd::prelude::*;

verus! {

/// An audio packet on its way to the encoder.
pub struct AudioItem {
    pub chunk: AudioChunk,
    pub format: AudioFormat,
    pub pts: MfTime100ns,
    pub duration: MfTime100ns,
}

/// Packets that the audio queue holds.
pub const AUDIO_QUEUE_CAPACITY: usize = 64;

/// Pause in milliseconds while no source has a packet.
pub const IDLE_PAUSE_MS: u64 = 5;

/// The queue between the audio loop and the encoder: what the loop sends is what the encoder
/// receives.
pub fn audio_queue() -> (r: (Outlet<AudioItem>, crossbeam_channel::Receiver<AudioItem>))
    ensures
        packet_capacity(r.0.sender()) == AUDIO_QUEUE_CAPACITY,
        joined_packets(r.0.sender(), r.1),
        r.0.log() == Seq::<QueueEvent<AudioItem>>::empty(),
{
    let (tx, rx) = bounded_packets(AUDIO_QUEUE_CAPACITY);
    (Outlet::new(tx), rx)
}

/// Length of a packet in media time.
pub open spec fn packet_duration(frames: int, sample_rate: int) -> int {
    frames * 10_000_000 / (if sample_rate < 1 {
        1
    } else {
        sample_rate
    })
}

/// What the audio loop does next.
pub enum SoundAction {
    /// Poll again at once; the packet lay before the start of the video.
    Again,
    /// Publish the counters and poll again.
    Publish,
    /// Pause, publish the counters and poll again.
    Pause,
    /// The sources broke down; the recording goes on without sound.
    Stop(MediaError),
}

/// Gives packets their media time. Audio and video count from the same first frame: that is what
/// keeps them together.
pub struct SoundLoop {
    timeline: Timeline,
    format: AudioFormat,
}

impl SoundLoop {
    pub closed spec fn timeline_view(&self) -> Timeline {
        self.timeline
    }

    pub closed spec fn sound_format(&self) -> AudioFormat {
        self.format
    }

    pub fn new(t0: Srt100ns, format: AudioFormat) -> (s: SoundLoop)
        ensures
            s.timeline_view().start() == t0.0,
            s.timeline_view().last() is None,
            s.timeline_view().anomaly_count() == 0,
            s.sound_format() == format,
    {
        SoundLoop { timeline: Timeline::new(t0), format }
    }

    /// Tells whether the time stamp of a packet can be converted.
    pub fn can_take(&self, chunk: &AudioChunk) -> (r: bool)
        ensures
            r == self.timeline_view().convertible(chunk.srt),
    {
        self.timeline.can_convert(chunk.srt)
    }

    /// Turns a mixed packet into an item for the encoder. What lies at or before the start of the
    /// video is left out.
    pub fn place(&mut self, chunk: AudioChunk) -> (r: Option<AudioItem>)
        requires
            old(self).timeline_view().convertible(chunk.srt),
        ensures
            final(self).sound_format() == old(self).sound_format(),
            converted_once(
                old(self).timeline_view(),
                chunk.srt,
                final(self).timeline_view(),
            ),
            r is Some <==> old(self).timeline_view().next_time(chunk.srt) > 0,
            r matches Some(item) ==> placed(
                item,
                chunk,
                old(self).sound_format(),
                old(self).timeline_view().next_time(chunk.srt),
            ),
    {
        let mf: MfTime100ns = self.timeline.to_mf(chunk.srt);
        if mf.0 <= 0 {
            return None;
        }
        let rate: u64 = if self.format.sample_rate < 1 {
            1
        } else {
            self.format.sample_rate as u64
        };
        proof {
            vstd::arithmetic::div_mod::lemma_div_is_ordered_by_denominator(
                chunk.frames * 10_000_000,
                1,
                rate as int,
            );
        }
        let duration: MfTime100ns = MfTime100ns((chunk.frames as u64 * 10_000_000 / rate) as i64);
        Some(AudioItem { chunk, format: self.format, pts: mf, duration })
    }

    /// Takes the result of one poll of the mixer. A packet is sent without waiting: where the
    /// queue has no room it is dropped and counted, the video is never held up. Every packet that
    /// lies behind the start of the video is offered once, and it is counted as dropped exactly
    /// where the queue did not take it.
    pub fn polled(
        &mut self,
        result: MediaResult<Option<AudioChunk>>,
        outlet: &mut Outlet<AudioItem>,
        metrics: &mut Metrics,
    ) -> (action: SoundAction)
        requires
            result matches Ok(Some(chunk)) ==> old(self).timeline_view().convertible(chunk.srt),
        ensures
            final(self).sound_format() == old(self).sound_format(),
            final(outlet).sender() == old(outlet).sender(),
            !(result matches Ok(Some(_))) ==> final(outlet).log() == old(outlet).log(),
            match result {
                Ok(Some(chunk)) => {
                    let early = old(self).timeline_view().next_time(chunk.srt) <= 0;
                    &&& action == (if early {
                        SoundAction::Again
                    } else {
                        SoundAction::Publish
                    })
                    &&& converted_once(
                        old(self).timeline_view(),
                        chunk.srt,
                        final(self).timeline_view(),
                    )
                    &&& early ==> *final(metrics) == *old(metrics) && final(outlet).log() == old(
                        outlet,
                    ).log()
                    &&& !early ==> exists|item: AudioItem, answer: Answer|
                        placed(
                            item,
                            chunk,
                            old(self).sound_format(),
                            old(self).timeline_view().next_time(chunk.srt),
                        ) && final(outlet).log() == #[trigger] old(outlet).log().push(
                            QueueEvent::Offered(item, answer),
                        ) && *final(metrics) == booked(*old(metrics), answer)
                },
                Ok(None) => action is Pause && *final(metrics) == *old(metrics) && *final(self)
                    == *old(self),
                Err(e) => action == SoundAction::Stop(e) && *final(metrics) == *old(metrics)
                    && *final(self) == *old(self),
            },
    {
        match result {
            Err(e) => SoundAction::Stop(e),
            Ok(None) => SoundAction::Pause,
            Ok(Some(chunk)) => match self.place(chunk) {
                None => SoundAction::Again,
                Some(item) => {
                    let outcome: SendOutcome<AudioItem> = try_send(outlet, item);
                    settle_packet(&outcome, metrics);
                    SoundAction::Publish
                },
            },
        }
    }
}

/// The item carries the packet, with its place in the recording.
pub open spec fn placed(item: AudioItem, chunk: AudioChunk, format: AudioFormat, time: int) -> bool {
    &&& item.chunk == chunk
    &&& item.format == format
    &&& item.pts.0 == time
    &&& item.duration.0 == packet_duration(chunk.frames as int, format.sample_rate as int)
}

/// The counters after a packet was dropped.
pub open spec fn packet_dropped(m: Metrics) -> Metrics {
    Metrics { frames_dropped_audio: next_count(m.frames_dropped_audio), ..m }
}

/// The counters after the queue answered: a packet that it did not take was dropped.
pub open spec fn booked(m: Metrics, answer: Answer) -> Metrics {
    if answer is Taken {
        m
    } else {
        packet_dropped(m)
    }
}

/// Books what became of a packet.
pub fn settle_packet(outcome: &SendOutcome<AudioItem>, metrics: &mut Metrics)
    ensures
        *final(metrics) == booked(*old(metrics), answer_of(*outcome)),
{
    match outcome {
        SendOutcome::Sent => {},
        _ => bump(&mut metrics.frames_dropped_audio),
    }
}

/// A report about a weak signal.
#[derive(Debug, Clone, Copy, PartialEq, Eq, Structural)]
pub struct WeakWarning {
    /// Position of the source.
    pub source: usize,
    pub kind: AudioSourceKind,
    pub peak: u64,
    pub weak_secs: u64,
}

/// Where to look when a source is weak.
pub open spec fn hint_text(kind: AudioSourceKind) -> Seq<char> {
    match kind {
        AudioSourceKind::SystemLoopback => "系统音量 / 静音开关"@,
        AudioSourceKind::Microphone => "麦克风增益 / 静音开关"@,
    }
}

impl WeakWarning {
    pub fn hint(&self) -> (s: &'static str)
        ensures
            s@ == hint_text(self.kind),
    {
        match self.kind {
            AudioSourceKind::SystemLoopback => "系统音量 / 静音开关",
            AudioSourceKind::Microphone => "麦克风增益 / 静音开关",
        }
    }
}

/// The threshold of a weak signal: the override where it is a number, else the default.
pub fn weak_threshold(setting: Option<&str>) -> (t: u64)
    ensures
        t == (match setting {
            Some(s) => match parsed_number(s@, u64::MAX as nat) {
                Some(n) => n as u64,
                None => AUDIO_WEAK_PEAK,
            },
            None => AUDIO_WEAK_PEAK,
        }),
{
    match setting {
        Some(s) => match parse_number(s) {
            Some(n) => n,
            None => AUDIO_WEAK_PEAK,
        },
        None => AUDIO_WEAK_PEAK,
    }
}

/// What is remembered about weak sources: for how many seconds each has been weak, and when the
/// last report was made.
pub struct WeakState {
    pub secs: Seq<u64>,
    pub last_report_ms: int,
    pub reports: Seq<WeakWarning>,
}

/// The peak of source `i` in the last second.
pub open spec fn peak_at(peaks: Seq<u64>, i: int) -> u64 {
    if 0 <= i < peaks.len() {
        peaks[i]
    } else {
        0
    }
}

/// One source after one more second. A source that delivers but stays below the threshold is
/// reported after five seconds, and again once a minute.
pub open spec fn weak_step(
    s: WeakState,
    i: int,
    kind: AudioSourceKind,
    m: SourceMetrics,
    peak: u64,
    threshold: u64,
    now_ms: int,
) -> WeakState {
    if m.chunks > 0 && peak < threshold {
        let w = next_count(s.secs[i]);
        let due = w == AUDIO_WEAK_SECS || (w > AUDIO_WEAK_SECS && now_ms - s.last_report_ms
            >= AUDIO_WEAK_REWARN_SECS * 1000);
        WeakState {
            secs: s.secs.update(i, w),
            last_report_ms: if due {
                now_ms
            } else {
                s.last_report_ms
            },
            reports: if due {
                s.reports.push(WeakWarning { source: i as usize, kind, peak, weak_secs: w })
            } else {
                s.reports
            },
        }
    } else {
        WeakState { secs: s.secs.update(i, 0), ..s }
    }
}

/// The first `k` sources after one more second.
pub open spec fn weak_run(
    s: WeakState,
    sources: Seq<(AudioSourceKind, String, SourceMetrics)>,
    peaks: Seq<u64>,
    threshold: u64,
    now_ms: int,
    k: nat,
) -> WeakState
    decreases k,
{
    if k == 0 {
        s
    } else {
        let i = k - 1;
        weak_step(
            weak_run(s, sources, peaks, threshold, now_ms, i as nat),
            i,
            sources[i].0,
            sources[i].2,
            peak_at(peaks, i),
            threshold,
            now_ms,
        )
    }
}

/// Watches the sources for weak signals.
#[derive(Debug)]
pub struct WeakSignals {
    weak_secs: Vec<u64>,
    last_report_ms: i64,
}

impl WeakSignals {
    /// What is remembered, without any report yet.
    pub closed spec fn state(&self) -> WeakState {
        WeakState {
            secs: self.weak_secs@,
            last_report_ms: self.last_report_ms as int,
            reports: Seq::empty(),
        }
    }

    pub fn new(sources: usize, now_ms: i64) -> (w: WeakSignals)
        requires
            i64::MIN <= now_ms - AUDIO_WEAK_REWARN_SECS * 1000,
        ensures
            w.state() == (WeakState {
                secs: Seq::new(sources as nat, |i: int| 0u64),
                last_report_ms: now_ms - AUDIO_WEAK_REWARN_SECS * 1000,
                reports: Seq::empty(),
            }),
    {
        let mut weak_secs: Vec<u64> = Vec::new();
        let mut i: usize = 0;
        while i < sources
            invariant
                i <= sources,
                weak_secs@ =~= Seq::new(i as nat, |j: int| 0u64),
            decreases sources - i,
        {
            weak_secs.push(0);
            i = i + 1;
        }
        WeakSignals { weak_secs, last_report_ms: now_ms - (AUDIO_WEAK_REWARN_SECS * 1000) as i64 }
    }

    /// One second has passed.
    pub fn second(
        &mut self,
        sources: &Vec<(AudioSourceKind, String, SourceMetrics)>,
        peaks: &Vec<u64>,
        threshold: u64,
        now_ms: i64,
    ) -> (reports: Vec<WeakWarning>)
        requires
            sources.len() == old(self).state().secs.len(),
        ensures
            ({
                let end = weak_run(
                    old(self).state(),
                    sources@,
                    peaks@,
                    threshold,
                    now_ms as int,
                    sources@.len(),
                );
                &&& reports@ == end.reports
                &&& final(self).state() == (WeakState { reports: Seq::empty(), ..end })
            }),
    {
        let ghost start = self.state();
        let mut reports: Vec<WeakWarning> = Vec::new();
        let mut i: usize = 0;
        while i < sources.len()
            invariant
                i <= sources.len(),
                start == old(self).state(),
                start.reports =~= Seq::<WeakWarning>::empty(),
                self.weak_secs.len() == sources.len(),
                ({
                    let s = weak_run(start, sources@, peaks@, threshold, now_ms as int, i as nat);
                    &&& s.secs == self.weak_secs@
                    &&& s.last_report_ms == self.last_report_ms
                    &&& s.reports == reports@
                }),
            decreases sources.len() - i,
        {
            let kind: AudioSourceKind = sources[i].0;
            let m: SourceMetrics = sources[i].2;
            let peak: u64 = if i < peaks.len() {
                peaks[i]
            } else {
                0
            };
            if m.chunks > 0 && peak < threshold {
                let w: u64 = self.weak_secs[i].wrapping_add(1);
                self.weak_secs.set(i, w);
                let due: bool = w == AUDIO_WEAK_SECS || (w > AUDIO_WEAK_SECS && now_ms as i128
                    - self.last_report_ms as i128 >= (AUDIO_WEAK_REWARN_SECS * 1000) as i128);
                if due {
                    self.last_report_ms = now_ms;
                    reports.push(WeakWarning { source: i, kind, peak, weak_secs: w });
                }
            } else {
                self.weak_secs.set(i, 0);
            }
            i = i + 1;
        }
        reports
    }
}

/// A quiet moment raises no alarm: a single source that was not yet weak for four seconds is not
/// reported in this second.
pub proof fn law_short_silence_is_not_reported(
    s: WeakState,
    kind: AudioSourceKind,
    m: SourceMetrics,
    peak: u64,
    threshold: u64,
    now_ms: int,
)
    requires
        s.secs.len() == 1,
        s.secs[0] + 1 < AUDIO_WEAK_SECS,
    ensures
        weak_step(s, 0, kind, m, peak, threshold, now_ms).reports == s.reports,
{
}

/// A loud second, or one without packets, starts the count anew.
pub proof fn law_recovery_resets_the_count(
    s: WeakState,
    i: int,
    kind: AudioSourceKind,
    m: SourceMetrics,
    peak: u64,
    threshold: u64,
    now_ms: int,
)
    requires
        0 <= i < s.secs.len(),
        m.chunks == 0 || peak >= threshold,
    ensures
        weak_step(s, i, kind, m, peak, threshold, now_ms).secs[i] == 0,
        weak_step(s, i, kind, m, peak, threshold, now_ms).reports == s.reports,
{
}

/// An item is its packet with its place in the recording: it lasts as long as its samples take to
/// play, rounded down to whole ticks.
pub proof fn law_packets_last_as_long_as_they_sound(
    item: AudioItem,
    chunk: AudioChunk,
    format: AudioFormat,
    time: int,
)
    requires
        placed(item, chunk, format, time),
        format.sample_rate > 0,
    ensures
        item.chunk == chunk,
        item.format == format,
        item.pts.0 == time,
        item.duration.0 * format.sample_rate <= chunk.frames * 10_000_000 < (item.duration.0 + 1)
            * format.sample_rate,
{
    let rate = format.sample_rate as int;
    let a = chunk.frames * 10_000_000;
    vstd::arithmetic::div_mod::lemma_fundamental_div_mod(a, rate);
    vstd::arithmetic::div_mod::lemma_mod_bound(a, rate);
    let q = a / rate;
    let r = a % rate;
    assert(q * rate <= a < (q + 1) * rate) by (nonlinear_arith)
        requires
            a == rate * q + r,
            0 <= r < rate,
    ;
}

/// A packet that the queue took is not counted as dropped; one that it did not take is counted
/// once, as sound and not as a frame.
pub proof fn law_only_refused_packets_are_counted(m: Metrics, answer: Answer)
    requires
        m.frames_dropped_audio < u64::MAX,
    ensures
        booked(m, answer).frames_dropped_audio == m.frames_dropped_audio + (if answer is Taken {
            0int
        } else {
            1int
        }),
        booked(m, answer).frames_dropped_backpressure == m.frames_dropped_backpressure,
        booked(m, answer).frames_dropped_startup == m.frames_dropped_startup,
        booked(m, answer).audio_dropped_backwards == m.audio_dropped_backwards,
        booked(m, answer).audio_chunks == m.audio_chunks,
{
}

/// A source that delivers below the threshold is reported when it has been weak for five seconds,
/// and after that once a minute has gone by since the last report; the report names the source,
/// its kind, its peak and how long it has been weak.
pub proof fn law_weak_sources_are_reported(
    s: WeakState,
    i: int,
    kind: AudioSourceKind,
    m: SourceMetrics,
    peak: u64,
    threshold: u64,
    now_ms: int,
)
    requires
        0 <= i < s.secs.len(),
        i <= usize::MAX,
        s.secs[i] < u64::MAX,
        m.chunks > 0,
        peak < threshold,
    ensures
        ({
            let next = weak_step(s, i, kind, m, peak, threshold, now_ms);
            let due = s.secs[i] == 4 || (s.secs[i] > 4 && now_ms - s.last_report_ms >= 60_000);
            &&& next.secs.len() == s.secs.len()
            &&& next.secs[i] == s.secs[i] + 1
            &&& forall|j: int| 0 <= j < s.secs.len() && j != i ==> next.secs[j] == s.secs[j]
            &&& due ==> {
                &&& next.reports.len() == s.reports.len() + 1
                &&& next.reports.last().source == i
                &&& next.reports.last().kind == kind
                &&& next.reports.last().peak == peak
                &&& next.reports.last().weak_secs == s.secs[i] + 1
                &&& next.last_report_ms == now_ms
            }
            &&& !due ==> next.reports == s.reports && next.last_report_ms == s.last_report_ms
            &&& forall|j: int| 0 <= j < s.reports.len() ==> next.reports[j] == s.reports[j]
        }),
{
}

/// A second counts for every source by itself: a source that delivered below the threshold has
/// been weak for one second more, every other one starts anew, and the peak that decides is its
/// own.
pub proof fn law_sources_are_watched_one_by_one(
    s: WeakState,
    sources: Seq<(AudioSourceKind, String, SourceMetrics)>,
    peaks: Seq<u64>,
    threshold: u64,
    now_ms: int,
    k: nat,
    j: int,
)
    requires
        k <= sources.len(),
        sources.len() == s.secs.len(),
        peaks.len() == sources.len(),
        0 <= j < s.secs.len(),
        s.secs[j] < u64::MAX,
    ensures
        ({
            let end = weak_run(s, sources, peaks, threshold, now_ms, k);
            &&& end.secs.len() == s.secs.len()
            &&& j >= k ==> end.secs[j] == s.secs[j]
            &&& j < k && sources[j].2.chunks > 0 && peaks[j] < threshold ==> end.secs[j]
                == s.secs[j] + 1
            &&& j < k && (sources[j].2.chunks == 0 || peaks[j] >= threshold) ==> end.secs[j] == 0
        }),
    decreases k,
{
    if k > 0 {
        law_sources_are_watched_one_by_one(
            s,
            sources,
            peaks,
            threshold,
            now_ms,
            (k - 1) as nat,
            j,
        );
    }
}

/// The peak that decides is that of the source's own place; a source without one counts as silent.
pub proof fn law_missing_peaks_count_as_silence(peaks: Seq<u64>, i: int)
    ensures
        0 <= i < peaks.len() ==> peak_at(peaks, i) == peaks[i],
        i >= peaks.len() ==> peak_at(peaks, i) == 0,
{
}

} // verus!
