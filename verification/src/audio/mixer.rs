//! The mixing point: several sources become one stream.
//!
//! ```text
//! N sources -> one grid adapter each (20 ms grid, gain, counters)
//!           -> mixer (sum of equally long blocks, limited to 16 bits) -> one stream
//! ```
//!
//! Devices deliver packets of any length. An adapter cuts them into equally long grid slots and
//! fills gaps with silence. The time of a slot is the device time of its first sample, advanced
//! by the samples consumed, so the clock of the device is never replaced by another one.

use super::gain::{apply_gain, clamp_gain, gain_in_range, gain_within, scaled, Gain};
use super::source::{AudioSource, AudioSourceKind};
use super::tap::{
    can_answer, words_of, words_of_failure, Held, SourceAnswer, SourceEvent, Tap,
};
use super::{
    pcm_peak, peak_of, push_silence, silent_samples, AudioChunk, AudioFormat, ChunkView,
    SampleFormat,
};
use crate::consts::{clamped, SILENCE_GUARD_MS};
use crate::counter::{bump, later, next_count, sooner, wrapped};
use crate::error::{MediaError, MediaResult};
use crate::text::{decimal, push_decimal};
use crate::time::Srt100ns;
use vstd::prelude::*;

verus! {

/// Counters of one source. The difference of the first two is the number of slots that hold
/// samples of the device; a sum over all sources would hide a source that delivers nothing.
#[derive(Debug, Clone, Copy, PartialEq, Eq, Structural)]
pub struct SourceMetrics {
    pub chunks: u64,
    pub filler_blocks: u64,
    pub dropped_backwards: u64,
    pub peak: u64,
    pub peak_last_sec: u64,
}

impl Default for SourceMetrics {
    fn default() -> (m: SourceMetrics)
        ensures
            m == (SourceMetrics {
                chunks: 0,
                filler_blocks: 0,
                dropped_backwards: 0,
                peak: 0,
                peak_last_sec: 0,
            }),
    {
        SourceMetrics {
            chunks: 0,
            filler_blocks: 0,
            dropped_backwards: 0,
            peak: 0,
            peak_last_sec: 0,
        }
    }
}

impl SourceMetrics {
    pub fn real_blocks(&self) -> (n: u64)
        ensures
            n == if self.chunks >= self.filler_blocks {
                self.chunks - self.filler_blocks
            } else {
                0
            },
    {
        self.chunks.saturating_sub(self.filler_blocks)
    }
}

/// What an adapter yields for one grid slot.
#[derive(Debug)]
pub enum Slot {
    /// Samples of the device.
    Real(AudioChunk),
    /// Silence in place of samples that did not come.
    Silent(AudioChunk),
    /// The slot is not complete yet.
    Pending,
}

/// A slot in terms of its samples.
pub enum SlotView {
    Real(ChunkView),
    Silent(ChunkView),
    Pending,
}

impl View for Slot {
    type V = SlotView;

    open spec fn view(&self) -> SlotView {
        match *self {
            Slot::Real(c) => SlotView::Real(c@),
            Slot::Silent(c) => SlotView::Silent(c@),
            Slot::Pending => SlotView::Pending,
        }
    }
}

/// The fixed part of an adapter.
pub struct Grid {
    pub slot_frames: usize,
    pub format: AudioFormat,
    pub gain: Gain,
}

impl Grid {
    /// Samples of one slot.
    pub open spec fn slot_samples(self) -> int {
        self.slot_frames * self.format.channels
    }

    /// Length of one slot in units of 100 ns, rounded down.
    pub open spec fn slot_duration(self) -> int {
        self.slot_frames * 10_000_000 / self.format.sample_rate as int
    }
}

/// The moving part of an adapter: samples that wait for a complete slot, the time of the first
/// of them, and the counters.
pub struct GridState {
    pub pending: Seq<i16>,
    pub cursor: Option<i64>,
    pub metrics: SourceMetrics,
}

/// The grid of an adapter: a slot has at least one frame, and the gain is limited.
pub open spec fn grid_of(format: AudioFormat, gain: Gain, slot_frames: usize) -> Grid {
    Grid {
        slot_frames: if slot_frames == 0 {
            1
        } else {
            slot_frames
        },
        format,
        gain: gain_within(gain),
    }
}

/// An adapter that has not been asked yet.
pub open spec fn fresh_grid() -> GridState {
    GridState {
        pending: Seq::empty(),
        cursor: None,
        metrics: SourceMetrics {
            chunks: 0,
            filler_blocks: 0,
            dropped_backwards: 0,
            peak: 0,
            peak_last_sec: 0,
        },
    }
}

impl GridState {
    /// The time of the next slot.
    pub open spec fn next_srt(self) -> i64 {
        match self.cursor {
            Some(srt) => srt,
            None => 0,
        }
    }
}

/// The samples of the next slot: the first pending ones, with silence up to the slot length,
/// under the gain.
pub open spec fn slot_pcm(grid: Grid, s: GridState) -> Seq<i16> {
    Seq::new(
        grid.slot_samples() as nat,
        |i: int|
            if i < s.pending.len() {
                scaled(s.pending[i], grid.gain.0)
            } else {
                0i16
            },
    )
}

/// Cuts one slot off the pending samples.
pub open spec fn cut_slot(grid: Grid, s: GridState, silent: bool) -> (GridState, SlotView) {
    let n = grid.slot_samples();
    let chunk = ChunkView {
        pcm: slot_pcm(grid, s),
        frames: grid.slot_frames as u32,
        srt: s.next_srt(),
    };
    let next = GridState {
        pending: if n < s.pending.len() {
            s.pending.skip(n)
        } else {
            Seq::empty()
        },
        cursor: Some(wrapped(s.next_srt() + grid.slot_duration())),
        metrics: SourceMetrics {
            chunks: next_count(s.metrics.chunks),
            filler_blocks: if silent {
                next_count(s.metrics.filler_blocks)
            } else {
                s.metrics.filler_blocks
            },
            ..s.metrics
        },
    };
    (
        next,
        if silent {
            SlotView::Silent(chunk)
        } else {
            SlotView::Real(chunk)
        },
    )
}

/// A slot is complete.
pub open spec fn slot_ready(grid: Grid, s: GridState) -> bool {
    s.pending.len() >= grid.slot_samples()
}

/// The larger of two peaks.
pub open spec fn higher(a: u64, b: int) -> u64 {
    if b > a {
        b as u64
    } else {
        a
    }
}

/// A packet arrives while no slot is complete. One that lies before the next slot is dropped and
/// counted; any other joins the pending samples, and the first one sets the clock.
pub open spec fn on_chunk(grid: Grid, s: GridState, c: ChunkView) -> (GridState, SlotView) {
    if s.cursor matches Some(cur) && c.srt < cur {
        (
            GridState {
                metrics: SourceMetrics {
                    dropped_backwards: next_count(s.metrics.dropped_backwards),
                    ..s.metrics
                },
                ..s
            },
            SlotView::Pending,
        )
    } else {
        let grown = GridState {
            pending: s.pending + c.pcm,
            cursor: match s.cursor {
                Some(cur) => Some(cur),
                None => Some(c.srt),
            },
            metrics: SourceMetrics {
                peak: higher(s.metrics.peak, peak_of(c.pcm)),
                peak_last_sec: higher(s.metrics.peak_last_sec, peak_of(c.pcm)),
                ..s.metrics
            },
        };
        if slot_ready(grid, grown) {
            cut_slot(grid, grown, false)
        } else {
            (grown, SlotView::Pending)
        }
    }
}

/// No packet is waiting at time `now`. Where the next slot ends before the guard distance to
/// `now`, it is given up and filled with silence.
pub open spec fn on_idle(grid: Grid, s: GridState, now: i64) -> (GridState, SlotView) {
    let limit = wrapped(now - SILENCE_GUARD_MS * 10_000);
    let anchored = GridState {
        cursor: match s.cursor {
            Some(cur) => Some(cur),
            None => Some(limit),
        },
        ..s
    };
    if wrapped(anchored.next_srt() + grid.slot_duration()) <= limit {
        cut_slot(grid, anchored, true)
    } else {
        (anchored, SlotView::Pending)
    }
}

/// Holds one source and turns its packets into grid slots.
pub struct GridAdapter {
    pub kind: AudioSourceKind,
    /// Description of the opened endpoint.
    pub endpoint: String,
    /// Linear gain, within its range.
    pub gain: Gain,
    tap: Tap,
    format: AudioFormat,
    slot_frames: usize,
    pending: Vec<i16>,
    cursor_srt: Option<i64>,
    pub metrics: SourceMetrics,
}

impl GridAdapter {
    pub closed spec fn grid(&self) -> Grid {
        Grid { slot_frames: self.slot_frames, format: self.format, gain: self.gain }
    }

    pub closed spec fn state(&self) -> GridState {
        GridState { pending: self.pending@, cursor: self.cursor_srt, metrics: self.metrics }
    }

    /// The kind of the source and the description of its endpoint.
    pub closed spec fn identity(&self) -> (AudioSourceKind, Seq<char>) {
        (self.kind, self.endpoint@)
    }

    /// The source.
    pub closed spec fn source(&self) -> Held<Box<dyn AudioSource>> {
        self.tap.source()
    }

    /// What the source was heard to say so far, in order.
    pub closed spec fn heard(&self) -> Seq<SourceEvent> {
        self.tap.heard()
    }

    /// Everything but the moving part is as it was.
    pub open spec fn same_setting(&self, before: &GridAdapter) -> bool {
        &&& self.grid() == before.grid()
        &&& self.identity() == before.identity()
        &&& self.source() == before.source()
    }

    pub open spec fn wf(&self) -> bool {
        &&& grid_fits(self.grid().format, self.grid().slot_frames)
        &&& gain_in_range(self.grid().gain)
    }

    /// Takes over a source. A slot has at least one frame, and the gain is limited.
    pub fn new(
        kind: AudioSourceKind,
        source: Box<dyn AudioSource>,
        gain: Gain,
        slot_frames: usize,
    ) -> (a: GridAdapter)
        requires
            grid_fits(source.opened_format(), slot_frames),
        ensures
            a.wf(),
            a.identity() == (kind, source.description()),
            a.source() == Held(source),
            a.heard() == Seq::<SourceEvent>::empty(),
            a.grid() == grid_of(source.opened_format(), gain, slot_frames),
            a.state() == fresh_grid(),
    {
        let held = Held(source);
        GridAdapter::holding(kind, held, gain, slot_frames)
    }

    /// Takes over a source that is held already. A caller that is verified itself uses this one:
    /// what it knows of a source lasts as long as the source stays held.
    pub fn holding(
        kind: AudioSourceKind,
        source: Held<Box<dyn AudioSource>>,
        gain: Gain,
        slot_frames: usize,
    ) -> (a: GridAdapter)
        requires
            grid_fits(source.0.opened_format(), slot_frames),
        ensures
            a.wf(),
            a.identity() == (kind, source.0.description()),
            a.source() == source,
            a.heard() == Seq::<SourceEvent>::empty(),
            a.grid() == grid_of(source.0.opened_format(), gain, slot_frames),
            a.state() == fresh_grid(),
    {
        let format: AudioFormat = source.0.format();
        let endpoint: String = source.0.opened();
        GridAdapter {
            kind,
            endpoint,
            gain: clamp_gain(gain),
            tap: Tap::new(source),
            format,
            slot_frames: if slot_frames == 0 {
                1
            } else {
                slot_frames
            },
            pending: Vec::new(),
            cursor_srt: None,
            metrics: SourceMetrics::default(),
        }
    }

    fn slot_samples(&self) -> (n: usize)
        requires
            self.wf(),
        ensures
            n == self.grid().slot_samples(),
    {
        self.slot_frames * self.format.channels as usize
    }

    fn slot_duration_100ns(&self) -> (d: i64)
        requires
            self.wf(),
        ensures
            d == self.grid().slot_duration(),
    {
        let ticks: i64 = self.slot_frames as i64 * 10_000_000;
        proof {
            vstd::arithmetic::div_mod::lemma_div_pos_is_pos(
                ticks as int,
                self.format.sample_rate as int,
            );
            vstd::arithmetic::div_mod::lemma_div_is_ordered_by_denominator(
                ticks as int,
                1,
                self.format.sample_rate as int,
            );
        }
        (ticks as u64 / self.format.sample_rate as u64) as i64
    }

    /// Cuts one slot off the pending samples and advances the clock.
    fn emit_slot(&mut self, silent: bool) -> (slot: Slot)
        requires
            old(self).wf(),
        ensures
            final(self).wf(),
            final(self).same_setting(old(self)),
            final(self).heard() == old(self).heard(),
            (final(self).state(), slot@) == cut_slot(old(self).grid(), old(self).state(), silent),
    {
        let srt: i64 = match self.cursor_srt {
            Some(srt) => srt,
            None => 0,
        };
        let n: usize = self.slot_samples();
        let ghost before = self.state();
        let mut pcm: Vec<i16> = Vec::new();
        if n < self.pending.len() {
            let mut rest: Vec<i16> = self.pending.split_off(n);
            std::mem::swap(&mut rest, &mut self.pending);
            pcm = rest;
        } else {
            std::mem::swap(&mut pcm, &mut self.pending);
        }
        assert(self.pending@ == cut_slot(self.grid(), before, silent).0.pending);
        push_silence(&mut pcm, n);
        let ghost padded = pcm@;
        let mut i: usize = 0;
        while i < n
            invariant
                i <= n,
                pcm.len() == n,
                gain_in_range(self.gain),
                forall|j: int| 0 <= j < i ==> pcm@[j] == scaled(padded[j], self.gain.0),
                forall|j: int| i <= j < n ==> pcm@[j] == padded[j],
            decreases n - i,
        {
            let v: i16 = apply_gain(pcm[i], self.gain);
            pcm.set(i, v);
            i = i + 1;
        }
        proof {
            assert forall|j: int| 0 <= j < n implies pcm@[j] == slot_pcm(self.grid(), before)[j] by {
                if j >= before.pending.len() {
                    super::gain::law_silence_stays_silent(self.gain);
                }
            }
            assert(pcm@ == slot_pcm(self.grid(), before));
        }
        let d: i64 = self.slot_duration_100ns();
        self.cursor_srt = Some(later(srt, d));
        bump(&mut self.metrics.chunks);
        if silent {
            bump(&mut self.metrics.filler_blocks);
        }
        let chunk: AudioChunk = AudioChunk {
            pcm,
            frames: #[verifier::truncate] (self.slot_frames as u32),
            srt: Srt100ns(srt),
        };
        if silent {
            Slot::Silent(chunk)
        } else {
            Slot::Real(chunk)
        }
    }

    /// Takes a packet while no slot is complete.
    pub fn accept_chunk(&mut self, chunk: AudioChunk) -> (slot: Slot)
        requires
            old(self).wf(),
        ensures
            final(self).wf(),
            final(self).same_setting(old(self)),
            final(self).heard() == old(self).heard(),
            (final(self).state(), slot@) == on_chunk(old(self).grid(), old(self).state(), chunk@),
    {
        if let Some(cur) = self.cursor_srt {
            if chunk.srt.0 < cur {
                bump(&mut self.metrics.dropped_backwards);
                return Slot::Pending;
            }
        }
        if self.cursor_srt.is_none() {
            self.cursor_srt = Some(chunk.srt.0);
        }
        let peak: u64 = pcm_peak(chunk.pcm.as_slice());
        if peak > self.metrics.peak {
            self.metrics.peak = peak;
        }
        if peak > self.metrics.peak_last_sec {
            self.metrics.peak_last_sec = peak;
        }
        let mut pcm: Vec<i16> = chunk.pcm;
        self.pending.append(&mut pcm);
        if self.pending.len() >= self.slot_samples() {
            self.emit_slot(false)
        } else {
            Slot::Pending
        }
    }

    /// Notes that no packet is waiting at time `now`.
    pub fn accept_idle(&mut self, now: Srt100ns) -> (slot: Slot)
        requires
            old(self).wf(),
        ensures
            final(self).wf(),
            final(self).same_setting(old(self)),
            final(self).heard() == old(self).heard(),
            (final(self).state(), slot@) == on_idle(old(self).grid(), old(self).state(), now.0),
    {
        let limit: i64 = sooner(now.0, SILENCE_GUARD_MS * 10_000);
        let cur: i64 = match self.cursor_srt {
            Some(cur) => cur,
            None => limit,
        };
        self.cursor_srt = Some(cur);
        let d: i64 = self.slot_duration_100ns();
        if later(cur, d) <= limit {
            self.emit_slot(true)
        } else {
            Slot::Pending
        }
    }

    /// Asks the source for its share of the next slot. A complete slot is cut without asking;
    /// else the answer of the source decides: a packet, nothing at some time, or an error that is
    /// passed on and changes nothing.
    pub fn poll_slot(&mut self) -> (r: MediaResult<Slot>)
        requires
            old(self).wf(),
        ensures
            final(self).wf(),
            final(self).same_setting(old(self)),
            match r {
                Ok(slot) => stepped(*old(self), *final(self), slot@),
                Err(e) => failed(*old(self), *final(self), e),
            },
    {
        if self.pending.len() >= self.slot_samples() {
            return Ok(self.emit_slot(false));
        }
        match self.tap.poll() {
            Err(e) => {
                assert(self.heard() =~= old(self).heard() + seq![SourceEvent::Failed(e)]);
                assert(words_of_failure(old(self).source(), seq![SourceEvent::Failed(e)], e));
                Err(e)
            },
            Ok(Some(chunk)) => {
                let ghost c = SourceAnswer::Packet(chunk@);
                assert(self.heard() =~= old(self).heard() + words_of(c));
                let slot: Slot = self.accept_chunk(chunk);
                assert(can_answer(old(self).source(), c));
                Ok(slot)
            },
            Ok(None) => match self.tap.srt_now() {
                Err(e) => {
                    let ghost words = seq![SourceEvent::Nothing, SourceEvent::ClockFailed(e)];
                    assert(self.heard() =~= old(self).heard() + words);
                    assert(words_of_failure(old(self).source(), words, e));
                    Err(e)
                },
                Ok(now) => {
                    let ghost idle = SourceAnswer::Idle(now.0);
                    assert(self.heard() =~= old(self).heard() + words_of(idle));
                    let slot: Slot = self.accept_idle(now);
                    assert(can_answer(old(self).source(), idle));
                    Ok(slot)
                },
            },
        }
    }

    pub fn format(&self) -> (f: AudioFormat)
        ensures
            f == self.grid().format,
    {
        self.format
    }

    pub fn kind(&self) -> (k: AudioSourceKind)
        ensures
            k == self.identity().0,
    {
        self.kind
    }

    pub fn endpoint(&self) -> (text: &str)
        ensures
            text@ == self.identity().1,
    {
        self.endpoint.as_str()
    }

    pub fn gain(&self) -> (g: Gain)
        ensures
            g == self.grid().gain,
    {
        self.gain
    }

    pub fn metrics(&self) -> (m: SourceMetrics)
        ensures
            m == self.state().metrics,
    {
        self.metrics
    }

    /// Stops the source.
    pub fn stop(&mut self)
        ensures
            stopped(*old(self), *final(self)),
    {
        self.tap.stop();
    }
}

/// The adapter after an answer, and the slot that it yields.
pub open spec fn on_answer(grid: Grid, s: GridState, answer: SourceAnswer) -> (
    GridState,
    SlotView,
) {
    match answer {
        SourceAnswer::Packet(c) => on_chunk(grid, s, c),
        SourceAnswer::Idle(now) => on_idle(grid, s, now),
    }
}

/// One step of an adapter: a complete slot is cut without a question, else the source is asked
/// once and its answer is taken.
pub open spec fn stepped(before: GridAdapter, after: GridAdapter, slot: SlotView) -> bool {
    if slot_ready(before.grid(), before.state()) {
        &&& (after.state(), slot) == cut_slot(before.grid(), before.state(), false)
        &&& after.heard() == before.heard()
    } else {
        exists|answer: SourceAnswer| #[trigger]
            can_answer(before.source(), answer) && (after.state(), slot) == on_answer(
                before.grid(),
                before.state(),
                answer,
            ) && after.heard() == before.heard() + words_of(answer)
    }
}

/// A step of an adapter that failed: its source was asked once and answered with the error `e`.
pub open spec fn failed(before: GridAdapter, after: GridAdapter, e: MediaError) -> bool {
    &&& !slot_ready(before.grid(), before.state())
    &&& after.state() == before.state()
    &&& exists|words: Seq<SourceEvent>| #[trigger]
        words_of_failure(before.source(), words, e) && after.heard() == before.heard() + words
}

/// The source of an adapter was told to stop; nothing else has changed.
pub open spec fn stopped(before: GridAdapter, after: GridAdapter) -> bool {
    &&& after.same_setting(&before)
    &&& after.state() == before.state()
    &&& after.heard() == before.heard().push(SourceEvent::Stopped)
}

/// A grid whose slots can be counted: the slot's samples and its length in units of 100 ns fit
/// into machine words, and the sample rate is not zero.
pub open spec fn grid_fits(format: AudioFormat, slot_frames: usize) -> bool {
    &&& format.sample_rate > 0
    &&& slot_frames * format.channels <= usize::MAX
    &&& slot_frames * 10_000_000 <= i64::MAX
}

/// The packets among the slots of one round.
pub open spec fn contributions(slots: Seq<SlotView>) -> Seq<ChunkView>
    decreases slots.len(),
{
    if slots.len() == 0 {
        Seq::empty()
    } else {
        let earlier = contributions(slots.drop_last());
        match slots.last() {
            SlotView::Real(c) => earlier.push(c),
            SlotView::Silent(c) => earlier.push(c),
            SlotView::Pending => earlier,
        }
    }
}

/// The number of frames of the shortest packet.
pub open spec fn fewest_frames(parts: Seq<ChunkView>) -> u32
    decreases parts.len(),
{
    if parts.len() == 0 {
        u32::MAX
    } else {
        let earlier = fewest_frames(parts.drop_last());
        if parts.last().frames < earlier {
            parts.last().frames
        } else {
            earlier
        }
    }
}

/// The earliest time of the packets.
pub open spec fn earliest_srt(parts: Seq<ChunkView>) -> i64
    decreases parts.len(),
{
    if parts.len() == 0 {
        i64::MAX
    } else {
        let earlier = earliest_srt(parts.drop_last());
        if parts.last().srt < earlier {
            parts.last().srt
        } else {
            earlier
        }
    }
}

/// Sample `i` of a packet; silence behind its end.
pub open spec fn sample_or_silence(pcm: Seq<i16>, i: int) -> int {
    if 0 <= i < pcm.len() {
        pcm[i] as int
    } else {
        0
    }
}

/// The sum of the packets' samples at `i`.
pub open spec fn sum_at(parts: Seq<ChunkView>, i: int) -> int
    decreases parts.len(),
{
    if parts.len() == 0 {
        0
    } else {
        sum_at(parts.drop_last(), i) + sample_or_silence(parts.last().pcm, i)
    }
}

/// `v` limited to 16 bits.
pub open spec fn limited(v: int) -> i16 {
    clamped(v, -32768, 32767) as i16
}

fn limit16(v: i128) -> (r: i16)
    ensures
        r == limited(v as int),
{
    if v < -32768 {
        -32768
    } else if v > 32767 {
        32767
    } else {
        v as i16
    }
}

/// Channels of the mix; a mixer without sources counts as one channel.
pub open spec fn mix_channels(format: Option<AudioFormat>) -> int {
    match format {
        Some(f) if f.channels > 0 => f.channels as int,
        _ => 1,
    }
}

/// The mix of one round: as long as the shortest packet, at the earliest time, every sample the
/// limited sum of the packets' samples. Nothing where no packet has a frame.
pub open spec fn mixed(format: Option<AudioFormat>, parts: Seq<ChunkView>) -> Option<ChunkView> {
    if parts.len() == 0 || fewest_frames(parts) == 0 {
        None
    } else {
        Some(
            ChunkView {
                pcm: Seq::new(
                    (fewest_frames(parts) * mix_channels(format)) as nat,
                    |i: int| limited(sum_at(parts, i)),
                ),
                frames: fewest_frames(parts),
                srt: earliest_srt(parts),
            },
        )
    }
}

/// The views of a list of packets.
pub open spec fn chunk_views(chunks: Seq<AudioChunk>) -> Seq<ChunkView> {
    chunks.map_values(|c: AudioChunk| c@)
}

/// Mixes the packets of one round.
pub fn mix_round(format: Option<AudioFormat>, parts: &Vec<AudioChunk>) -> (r: Option<AudioChunk>)
    requires
        parts.len() > 0 ==> fewest_frames(chunk_views(parts@)) * mix_channels(format)
            <= usize::MAX,
    ensures
        match r {
            Some(c) => mixed(format, chunk_views(parts@)) == Some(c@),
            None => mixed(format, chunk_views(parts@)) is None,
        },
{
    if parts.len() == 0 {
        return None;
    }
    let ghost views = chunk_views(parts@);
    let mut frames: u32 = u32::MAX;
    let mut srt: i64 = i64::MAX;
    let mut k: usize = 0;
    while k < parts.len()
        invariant
            k <= parts.len(),
            views == chunk_views(parts@),
            frames == fewest_frames(views.take(k as int)),
            srt == earliest_srt(views.take(k as int)),
        decreases parts.len() - k,
    {
        assert(views.take(k + 1).drop_last() == views.take(k as int));
        assert(views.take(k + 1).last() == parts@[k as int]@);
        if parts[k].frames < frames {
            frames = parts[k].frames;
        }
        if parts[k].srt.0 < srt {
            srt = parts[k].srt.0;
        }
        k = k + 1;
    }
    assert(views.take(k as int) == views);
    if frames == 0 {
        return None;
    }
    let channels: usize = match format {
        Some(f) => if f.channels > 0 {
            f.channels as usize
        } else {
            1
        },
        None => 1,
    };
    assert(0 <= frames * channels) by (nonlinear_arith)
        requires
            0 <= frames,
            0 <= channels,
    ;
    let n: usize = frames as usize * channels;
    let mut pcm: Vec<i16> = Vec::new();
    let mut i: usize = 0;
    while i < n
        invariant
            i <= n,
            views == chunk_views(parts@),
            pcm@ == Seq::new(i as nat, |j: int| limited(sum_at(views, j))),
        decreases n - i,
    {
        let mut acc: i128 = 0;
        let mut m: usize = 0;
        while m < parts.len()
            invariant
                m <= parts.len(),
                views == chunk_views(parts@),
                acc == sum_at(views.take(m as int), i as int),
                -32768 * m <= acc <= 32767 * m,
            decreases parts.len() - m,
        {
            assert(views.take(m + 1).drop_last() == views.take(m as int));
            assert(views.take(m + 1).last() == parts@[m as int]@);
            if i < parts[m].pcm.len() {
                acc = acc + parts[m].pcm[i] as i128;
            }
            m = m + 1;
        }
        assert(views.take(m as int) == views);
        pcm.push(limit16(acc));
        i = i + 1;
        assert(pcm@ == Seq::new(i as nat, |j: int| limited(sum_at(views, j))));
    }
    Some(AudioChunk { pcm, frames, srt: Srt100ns(srt) })
}

/// Several adapters of one format.
pub struct AudioMixer {
    adapters: Vec<GridAdapter>,
    format: Option<AudioFormat>,
}

/// The text of a format in error messages.
pub open spec fn format_text(f: AudioFormat) -> Seq<char> {
    "AudioFormat { sample_rate: "@ + decimal(f.sample_rate as nat) + ", channels: "@ + decimal(
        f.channels as nat,
    ) + ", format: "@ + (match f.format {
        SampleFormat::Pcm16 => "Pcm16"@,
        SampleFormat::Float32 => "Float32"@,
    }) + " }"@
}

fn push_format(out: &mut String, f: AudioFormat)
    ensures
        final(out)@ == old(out)@ + format_text(f),
{
    let ghost before = out@;
    let mut s: String = String::from_str("AudioFormat { sample_rate: ");
    push_decimal(&mut s, f.sample_rate as u64);
    s.append(", channels: ");
    push_decimal(&mut s, f.channels as u64);
    s.append(", format: ");
    match f.format {
        SampleFormat::Pcm16 => s.append("Pcm16"),
        SampleFormat::Float32 => s.append("Float32"),
    }
    s.append(" }");
    out.append(s.as_str());
}

/// The message about two sources of different formats.
pub open spec fn mismatch_text(f: AudioFormat, g: AudioFormat) -> Seq<char> {
    "音频源格式不一致："@ + format_text(f) + " vs "@ + format_text(g)
        + "（正常路径由系统转换保证一致；命中此错误 = 连回退都失败了）"@
}

/// All adapters have the format of the first one.
pub open spec fn one_format(adapters: Seq<GridAdapter>) -> bool {
    forall|i: int|
        0 <= i < adapters.len() ==> (#[trigger] adapters[i]).grid().format == adapters[0].grid().format
}

/// The `i`-th adapter is the first one whose format differs from the first one's.
pub open spec fn first_mismatch(adapters: Seq<GridAdapter>, i: int) -> bool {
    &&& 0 <= i < adapters.len()
    &&& adapters[i].grid().format != adapters[0].grid().format
    &&& forall|j: int|
        0 <= j < i ==> (#[trigger] adapters[j]).grid().format == adapters[0].grid().format
}

impl AudioMixer {
    pub closed spec fn sources(&self) -> Seq<GridAdapter> {
        self.adapters@
    }

    pub closed spec fn mix_format(&self) -> Option<AudioFormat> {
        self.format
    }

    pub open spec fn wf(&self) -> bool {
        &&& forall|i: int| 0 <= i < self.sources().len() ==> (#[trigger] self.sources()[i]).wf()
        &&& one_format(self.sources())
        &&& self.mix_format() == (if self.sources().len() == 0 {
            None
        } else {
            Some(self.sources()[0].grid().format)
        })
    }

    /// Puts adapters together. Sources of different formats are refused: the system converts all
    /// sources to one format, so a difference means that even its fallback failed.
    pub fn new(adapters: Vec<GridAdapter>) -> (r: MediaResult<(AudioMixer, Vec<String>)>)
        requires
            forall|i: int| 0 <= i < adapters.len() ==> (#[trigger] adapters@[i]).wf(),
        ensures
            r is Ok <==> one_format(adapters@),
            r matches Ok((mixer, described)) ==> {
                &&& mixer.wf()
                &&& mixer.sources() == adapters@
                &&& described.len() == adapters.len()
                &&& forall|i: int|
                    0 <= i < adapters.len() ==> (#[trigger] described@[i])@
                        == adapters@[i].identity().1
            },
            r matches Err(e) ==> exists|i: int| #[trigger]
                first_mismatch(adapters@, i) && (e matches MediaError::Internal(text) && text@
                    == mismatch_text(adapters@[0].grid().format, adapters@[i].grid().format)),
    {
        let format: Option<AudioFormat> = if adapters.len() == 0 {
            None
        } else {
            Some(adapters[0].format())
        };
        let mut described: Vec<String> = Vec::new();
        let mut i: usize = 0;
        while i < adapters.len()
            invariant
                i <= adapters.len(),
                forall|j: int| 0 <= j < adapters.len() ==> (#[trigger] adapters@[j]).wf(),
                format == (if adapters.len() == 0 {
                    None
                } else {
                    Some(adapters@[0].grid().format)
                }),
                forall|j: int|
                    0 <= j < i ==> (#[trigger] adapters@[j]).grid().format
                        == adapters@[0].grid().format,
                described.len() == i,
                forall|j: int|
                    0 <= j < i ==> (#[trigger] described@[j])@ == adapters@[j].identity().1,
            decreases adapters.len() - i,
        {
            let g: AudioFormat = adapters[i].format();
            if let Some(f) = format {
                if f.sample_rate != g.sample_rate || f.channels != g.channels || f.format
                    != g.format {
                    let mut text: String = String::from_str("音频源格式不一致：");
                    push_format(&mut text, f);
                    text.append(" vs ");
                    push_format(&mut text, g);
                    text.append("（正常路径由系统转换保证一致；命中此错误 = 连回退都失败了）");
                    assert(first_mismatch(adapters@, i as int));
                    return Err(MediaError::Internal(text));
                }
            }
            described.push(adapters[i].endpoint.clone());
            i = i + 1;
        }
        Ok((AudioMixer { adapters, format }, described))
    }

    /// A mixer without sources.
    pub fn empty() -> (mixer: AudioMixer)
        ensures
            mixer.wf(),
            mixer.sources().len() == 0,
    {
        AudioMixer { adapters: Vec::new(), format: None }
    }

    pub fn is_empty(&self) -> (r: bool)
        ensures
            r == (self.sources().len() == 0),
    {
        self.adapters.len() == 0
    }

    pub fn format(&self) -> (f: Option<AudioFormat>)
        ensures
            f == self.mix_format(),
    {
        self.format
    }

    pub fn source_count(&self) -> (n: usize)
        ensures
            n == self.sources().len(),
    {
        self.adapters.len()
    }

    /// Kind, endpoint and counters of every source.
    pub fn source_metrics(&self) -> (r: Vec<(AudioSourceKind, String, SourceMetrics)>)
        ensures
            r.len() == self.sources().len(),
            forall|i: int|
                0 <= i < r.len() ==> {
                    &&& (#[trigger] r@[i]).0 == self.sources()[i].identity().0
                    &&& r@[i].1@ == self.sources()[i].identity().1
                    &&& r@[i].2 == self.sources()[i].state().metrics
                },
    {
        let mut r: Vec<(AudioSourceKind, String, SourceMetrics)> = Vec::new();
        let mut i: usize = 0;
        while i < self.adapters.len()
            invariant
                i <= self.adapters.len(),
                r.len() == i,
                forall|j: int|
                    0 <= j < i ==> {
                        &&& (#[trigger] r@[j]).0 == self.sources()[j].identity().0
                        &&& r@[j].1@ == self.sources()[j].identity().1
                        &&& r@[j].2 == self.sources()[j].state().metrics
                    },
            decreases self.adapters.len() - i,
        {
            let a: &GridAdapter = &self.adapters[i];
            r.push((a.kind, a.endpoint.clone(), a.metrics));
            i = i + 1;
        }
        r
    }

    /// One round over all sources. The packets that came are mixed; an error of a source ends the
    /// round and leaves the sources behind it untouched.
    pub fn poll(&mut self) -> (r: MediaResult<Option<AudioChunk>>)
        requires
            old(self).wf(),
        ensures
            final(self).wf(),
            final(self).mix_format() == old(self).mix_format(),
            same_sources(old(self).sources(), final(self).sources()),
            all_ready(old(self).sources()) ==> r is Ok,
            old(self).sources().len() == 0 ==> r == Ok::<Option<AudioChunk>, MediaError>(None),
            r matches Ok(out) ==> exists|slots: Seq<SlotView>| #[trigger]
                round(old(self).sources(), final(self).sources(), slots) && match out {
                    Some(c) => mixed(old(self).mix_format(), contributions(slots)) == Some(c@),
                    None => mixed(old(self).mix_format(), contributions(slots)) is None,
                },
            r matches Err(e) ==> exists|k: int| #[trigger]
                failed_at(old(self).sources(), final(self).sources(), k, e),
    {
        let mut parts: Vec<AudioChunk> = Vec::new();
        let ghost mut slots: Seq<SlotView> = Seq::empty();
        let mut i: usize = 0;
        while i < self.adapters.len()
            invariant
                self.wf(),
                i <= self.adapters.len(),
                self.mix_format() == old(self).mix_format(),
                same_sources(old(self).sources(), self.sources()),
                slots.len() == i,
                untouched_from(old(self).sources(), self.sources(), i as int),
                forall|j: int|
                    0 <= j < i ==> stepped(
                        old(self).sources()[j],
                        #[trigger] self.sources()[j],
                        slots[j],
                    ),
                chunk_views(parts@) == contributions(slots),
                parts.len() <= i,
                forall|j: int|
                    0 <= j < parts.len() ==> (#[trigger] parts@[j]).frames * mix_channels(
                        self.format,
                    ) <= usize::MAX,
            decreases self.adapters.len() - i,
        {
            let ghost before = self.sources();
            match self.adapters[i].poll_slot() {
                Err(e) => {
                    proof {
                        let first = old(self).sources();
                        assert forall|j: int| 0 <= j < i implies took_a_step(
                            first[j],
                            #[trigger] self.sources()[j],
                        ) by {
                            assert(stepped(first[j], self.sources()[j], slots[j]));
                        }
                        lemma_same_failure(
                            before[i as int],
                            first[i as int],
                            self.sources()[i as int],
                            e,
                        );
                        assert(failed_at(first, self.sources(), i as int, e));
                    }
                    return Err(e);
                },
                Ok(slot) => {
                    let ghost v = slot@;
                    proof {
                        let kept = slots;
                        slots = slots.push(v);
                        assert(slots.drop_last() == kept);
                        lemma_slot_is_grid_sized(
                            before[i as int],
                            self.sources()[i as int],
                            v,
                        );
                        lemma_same_step(
                            before[i as int],
                            old(self).sources()[i as int],
                            self.sources()[i as int],
                            v,
                        );
                    }
                    match slot {
                        Slot::Real(c) => {
                            let ghost kept = parts@;
                            parts.push(c);
                            assert(chunk_views(parts@) == chunk_views(kept).push(c@));
                        },
                        Slot::Silent(c) => {
                            let ghost kept = parts@;
                            parts.push(c);
                            assert(chunk_views(parts@) == chunk_views(kept).push(c@));
                        },
                        Slot::Pending => {},
                    }
                },
            }
            i = i + 1;
        }
        proof {
            assert(round(old(self).sources(), self.sources(), slots));
            if parts.len() > 0 {
                let views = chunk_views(parts@);
                lemma_fewest_is_a_bound(views, 0);
                assert(fewest_frames(views) * mix_channels(self.format) <= parts@[0].frames
                    * mix_channels(self.format)) by (nonlinear_arith)
                    requires
                        fewest_frames(views) <= parts@[0].frames,
                        mix_channels(self.format) > 0,
                ;
            }
        }
        Ok(mix_round(self.format, &parts))
    }

    /// Takes the peaks of the last second and starts the next one.
    pub fn take_1s_peaks(&mut self) -> (r: Vec<u64>)
        requires
            old(self).wf(),
        ensures
            final(self).wf(),
            final(self).mix_format() == old(self).mix_format(),
            same_sources(old(self).sources(), final(self).sources()),
            r.len() == old(self).sources().len(),
            forall|i: int|
                0 <= i < r.len() ==> {
                    let before = old(self).sources()[i].state();
                    &&& #[trigger] r@[i] == before.metrics.peak_last_sec
                    &&& final(self).sources()[i].state() == (GridState {
                        metrics: SourceMetrics { peak_last_sec: 0, ..before.metrics },
                        ..before
                    })
                    &&& final(self).sources()[i].heard() == old(self).sources()[i].heard()
                },
    {
        let mut r: Vec<u64> = Vec::new();
        let mut i: usize = 0;
        while i < self.adapters.len()
            invariant
                self.wf(),
                i <= self.adapters.len(),
                self.mix_format() == old(self).mix_format(),
                same_sources(old(self).sources(), self.sources()),
                untouched_from(old(self).sources(), self.sources(), i as int),
                r.len() == i,
                forall|j: int|
                    0 <= j < i ==> {
                        let before = old(self).sources()[j].state();
                        &&& #[trigger] r@[j] == before.metrics.peak_last_sec
                        &&& self.sources()[j].state() == (GridState {
                            metrics: SourceMetrics { peak_last_sec: 0, ..before.metrics },
                            ..before
                        })
                        &&& self.sources()[j].heard() == old(self).sources()[j].heard()
                    },
            decreases self.adapters.len() - i,
        {
            r.push(self.adapters[i].metrics.peak_last_sec);
            self.adapters[i].metrics.peak_last_sec = 0;
            i = i + 1;
        }
        r
    }

    /// Stops all sources.
    pub fn stop(&mut self)
        ensures
            old(self).wf() ==> final(self).wf(),
            final(self).mix_format() == old(self).mix_format(),
            final(self).sources().len() == old(self).sources().len(),
            forall|i: int|
                0 <= i < old(self).sources().len() ==> stopped(
                    old(self).sources()[i],
                    #[trigger] final(self).sources()[i],
                ),
    {
        let mut i: usize = 0;
        while i < self.adapters.len()
            invariant
                old(self).wf() ==> self.wf(),
                i <= self.adapters.len(),
                self.mix_format() == old(self).mix_format(),
                self.sources().len() == old(self).sources().len(),
                forall|j: int|
                    0 <= j < i ==> stopped(old(self).sources()[j], #[trigger] self.sources()[j]),
                forall|j: int|
                    i <= j < self.sources().len() ==> (#[trigger] self.sources()[j]) == old(
                        self,
                    ).sources()[j],
            decreases self.adapters.len() - i,
        {
            self.adapters[i].stop();
            i = i + 1;
        }
    }
}

proof fn lemma_fewest_is_a_bound(parts: Seq<ChunkView>, k: int)
    requires
        0 <= k < parts.len(),
    ensures
        fewest_frames(parts) <= parts[k].frames,
    decreases parts.len(),
{
    if k < parts.len() - 1 {
        lemma_fewest_is_a_bound(parts.drop_last(), k);
    }
}

proof fn lemma_slot_is_grid_sized(a: GridAdapter, next: GridAdapter, slot: SlotView)
    requires
        a.wf(),
        stepped(a, next, slot),
    ensures
        slot matches SlotView::Real(c) ==> c.frames * mix_channels(Some(a.grid().format))
            <= usize::MAX,
        slot matches SlotView::Silent(c) ==> c.frames * mix_channels(Some(a.grid().format))
            <= usize::MAX,
{
    let grid = a.grid();
    let frames = grid.slot_frames as u32;
    assert(frames <= grid.slot_frames);
    assert(frames * grid.format.channels <= grid.slot_frames * grid.format.channels)
        by (nonlinear_arith)
        requires
            frames <= grid.slot_frames,
    ;
}

/// The adapters keep their place, their identity, their grid and their source.
pub open spec fn same_sources(before: Seq<GridAdapter>, after: Seq<GridAdapter>) -> bool {
    &&& before.len() == after.len()
    &&& forall|i: int|
        0 <= i < before.len() ==> (#[trigger] after[i]).same_setting(&before[i])
}

/// Every adapter has a complete slot.
pub open spec fn all_ready(adapters: Seq<GridAdapter>) -> bool {
    forall|i: int|
        0 <= i < adapters.len() ==> slot_ready(
            (#[trigger] adapters[i]).grid(),
            adapters[i].state(),
        )
}

/// The adapter made one step.
pub open spec fn took_a_step(before: GridAdapter, after: GridAdapter) -> bool {
    exists|slot: SlotView| #[trigger] stepped(before, after, slot)
}

/// A round ended with the error `e` of the `k`-th source: the adapters before it made their step,
/// and those behind it are as they were.
pub open spec fn failed_at(
    before: Seq<GridAdapter>,
    after: Seq<GridAdapter>,
    k: int,
    e: MediaError,
) -> bool {
    &&& 0 <= k < before.len()
    &&& failed(before[k], after[k], e)
    &&& untouched_from(before, after, k + 1)
    &&& forall|i: int| 0 <= i < k ==> took_a_step(before[i], #[trigger] after[i])
}

proof fn lemma_same_step(a: GridAdapter, b: GridAdapter, next: GridAdapter, slot: SlotView)
    requires
        stepped(a, next, slot),
        a.same_setting(&b),
        untouched(b, a),
    ensures
        stepped(b, next, slot),
{
}

proof fn lemma_same_failure(a: GridAdapter, b: GridAdapter, next: GridAdapter, e: MediaError)
    requires
        failed(a, next, e),
        a.same_setting(&b),
        untouched(b, a),
    ensures
        failed(b, next, e),
{
}

/// The adapter is as it was, and its source was not asked.
pub open spec fn untouched(before: GridAdapter, after: GridAdapter) -> bool {
    after.state() == before.state() && after.heard() == before.heard()
}

/// The adapters from the `k`-th on are as they were.
pub open spec fn untouched_from(before: Seq<GridAdapter>, after: Seq<GridAdapter>, k: int) -> bool {
    &&& before.len() == after.len()
    &&& forall|i: int| k <= i < before.len() ==> untouched(before[i], #[trigger] after[i])
}

/// Every adapter made one step and yielded its slot; an adapter without a complete slot asked its
/// source.
pub open spec fn round(
    before: Seq<GridAdapter>,
    after: Seq<GridAdapter>,
    slots: Seq<SlotView>,
) -> bool {
    &&& slots.len() == before.len()
    &&& after.len() == before.len()
    &&& forall|i: int|
        0 <= i < before.len() ==> stepped(before[i], #[trigger] after[i], slots[i])
}

/// The length of the shortest block, or 0 where there is none.
pub open spec fn shortest(blocks: Seq<&[i16]>) -> nat
    decreases blocks.len(),
{
    if blocks.len() == 0 {
        0
    } else if blocks.len() == 1 {
        blocks[0]@.len()
    } else {
        let earlier = shortest(blocks.drop_last());
        if blocks.last()@.len() < earlier {
            blocks.last()@.len()
        } else {
            earlier
        }
    }
}

/// The sum of the blocks' samples at `i`.
pub open spec fn column_sum(blocks: Seq<&[i16]>, i: int) -> int
    decreases blocks.len(),
{
    if blocks.len() == 0 {
        0
    } else {
        column_sum(blocks.drop_last(), i) + blocks.last()@[i]
    }
}

proof fn lemma_shortest_is_a_bound(blocks: Seq<&[i16]>, k: int)
    requires
        0 <= k < blocks.len(),
    ensures
        shortest(blocks) <= blocks[k]@.len(),
    decreases blocks.len(),
{
    if k < blocks.len() - 1 {
        lemma_shortest_is_a_bound(blocks.drop_last(), k);
    }
}

/// Adds blocks sample by sample, limited to 16 bits, as far as the shortest one reaches.
/// Returns the number of samples written.
pub fn sum_blocks(blocks: &[&[i16]], out: &mut Vec<i16>) -> (n: usize)
    ensures
        n == shortest(blocks@),
        final(out)@ == Seq::new(n as nat, |i: int| limited(column_sum(blocks@, i))),
{
    let mut n: usize = 0;
    let mut k: usize = 0;
    while k < blocks.len()
        invariant
            k <= blocks.len(),
            n == shortest(blocks@.take(k as int)),
        decreases blocks.len() - k,
    {
        assert(blocks@.take(k + 1).drop_last() == blocks@.take(k as int));
        if k == 0 || blocks[k].len() < n {
            n = blocks[k].len();
        }
        k = k + 1;
    }
    assert(blocks@.take(k as int) == blocks@);
    out.clear();
    let mut i: usize = 0;
    while i < n
        invariant
            i <= n,
            n == shortest(blocks@),
            out@ == Seq::new(i as nat, |j: int| limited(column_sum(blocks@, j))),
        decreases n - i,
    {
        let mut acc: i128 = 0;
        let mut m: usize = 0;
        while m < blocks.len()
            invariant
                i < n,
                n == shortest(blocks@),
                m <= blocks.len(),
                acc == column_sum(blocks@.take(m as int), i as int),
                -32768 * m <= acc <= 32767 * m,
            decreases blocks.len() - m,
        {
            proof {
                lemma_shortest_is_a_bound(blocks@, m as int);
                assert(blocks@.take(m + 1).drop_last() == blocks@.take(m as int));
            }
            acc = acc + blocks[m][i] as i128;
            m = m + 1;
        }
        assert(blocks@.take(m as int) == blocks@);
        out.push(limit16(acc));
        i = i + 1;
        assert(out@ == Seq::new(i as nat, |j: int| limited(column_sum(blocks@, j))));
    }
    n
}

/// Cutting packets into slots moves no sample: at a gain of 1.0 the samples of a cut slot,
/// followed by the samples that stay pending, are the samples that were there before.
pub proof fn law_slots_preserve_content(grid: Grid, s: GridState)
    requires
        grid.gain == Gain(super::gain::ONE_BITS),
        slot_ready(grid, s),
    ensures
        slot_pcm(grid, s) + cut_slot(grid, s, false).0.pending =~= s.pending,
{
    assert(grid.slot_samples() >= 0) by (nonlinear_arith)
        requires
            grid.slot_samples() == grid.slot_frames * grid.format.channels,
    ;
    assert forall|i: int| 0 <= i < grid.slot_samples() implies slot_pcm(grid, s)[i]
        == s.pending[i] by {
        super::gain::law_gain_of_one_is_identity(s.pending[i]);
    }
}

/// A packet that is not dropped enters completely: what comes out and what stays pending make up
/// what was pending, followed by the packet.
pub proof fn law_packets_enter_completely(grid: Grid, s: GridState, c: ChunkView)
    requires
        grid.gain == Gain(super::gain::ONE_BITS),
        s.cursor matches Some(cur) ==> cur <= c.srt,
    ensures
        match on_chunk(grid, s, c) {
            (next, SlotView::Real(out)) => out.pcm + next.pending =~= s.pending + c.pcm,
            (next, SlotView::Pending) => next.pending =~= s.pending + c.pcm,
            (_, SlotView::Silent(_)) => false,
        },
{
    let grown = GridState { pending: s.pending + c.pcm, ..s };
    if slot_ready(grid, grown) {
        law_slots_preserve_content(grid, grown);
    }
}

/// The first packet sets the clock, and every slot that is cut advances it by the slot's length:
/// device time is never replaced by another clock.
pub proof fn law_slot_times_follow_the_device(grid: Grid, s: GridState, silent: bool)
    requires
        s.next_srt() + grid.slot_duration() <= i64::MAX,
        grid_fits(grid.format, grid.slot_frames),
    ensures
        match cut_slot(grid, s, silent) {
            (next, SlotView::Real(out)) => out.srt == s.next_srt() && next.cursor == Some(
                (s.next_srt() + grid.slot_duration()) as i64,
            ),
            (next, SlotView::Silent(out)) => out.srt == s.next_srt() && next.cursor == Some(
                (s.next_srt() + grid.slot_duration()) as i64,
            ),
            (_, SlotView::Pending) => false,
        },
{
    vstd::arithmetic::div_mod::lemma_div_pos_is_pos(
        grid.slot_frames * 10_000_000,
        grid.format.sample_rate as int,
    );
}

/// Filler silence keeps its distance: a silent slot ends at least the guard time before now.
pub proof fn law_silence_keeps_the_guard(grid: Grid, s: GridState, now: i64)
    requires
        grid_fits(grid.format, grid.slot_frames),
        i64::MIN <= now - SILENCE_GUARD_MS * 10_000,
        s.next_srt() + grid.slot_duration() <= i64::MAX,
        now + grid.slot_duration() <= i64::MAX,
    ensures
        on_idle(grid, s, now).1 matches SlotView::Silent(out) ==> out.srt + grid.slot_duration()
            <= now - SILENCE_GUARD_MS * 10_000,
{
    vstd::arithmetic::div_mod::lemma_div_pos_is_pos(
        grid.slot_frames * 10_000_000,
        grid.format.sample_rate as int,
    );
}

proof fn lemma_removal(parts: Seq<ChunkView>, k: int, i: int)
    requires
        0 <= k < parts.len(),
    ensures
        sum_at(parts, i) == sum_at(parts.remove(k), i) + sample_or_silence(parts[k].pcm, i),
        fewest_frames(parts) == (if parts[k].frames < fewest_frames(parts.remove(k)) {
            parts[k].frames
        } else {
            fewest_frames(parts.remove(k))
        }),
        earliest_srt(parts) == (if parts[k].srt < earliest_srt(parts.remove(k)) {
            parts[k].srt
        } else {
            earliest_srt(parts.remove(k))
        }),
    decreases parts.len(),
{
    let last = parts.len() - 1;
    if k == last {
        assert(parts.remove(k) == parts.drop_last());
    } else {
        lemma_removal(parts.drop_last(), k, i);
        assert(parts.remove(k).drop_last() == parts.drop_last().remove(k));
        assert(parts.remove(k).last() == parts.last());
    }
}

proof fn lemma_order_is_irrelevant(a: Seq<ChunkView>, b: Seq<ChunkView>, i: int)
    requires
        a.to_multiset() =~= b.to_multiset(),
    ensures
        a.len() == b.len(),
        sum_at(a, i) == sum_at(b, i),
        fewest_frames(a) == fewest_frames(b),
        earliest_srt(a) == earliest_srt(b),
    decreases a.len(),
{
    broadcast use vstd::seq_lib::group_to_multiset_ensures;

    assert(a.len() == a.to_multiset().len());
    assert(b.len() == b.to_multiset().len());
    if a.len() > 0 {
        let x = a.last();
        assert(a.contains(x));
        assert(a.to_multiset().count(x) > 0);
        assert(b.to_multiset().count(x) > 0);
        assert(b.contains(x));
        let k = b.index_of(x);
        assert(a.drop_last() == a.remove(a.len() - 1));
        assert(a.drop_last().to_multiset() =~= a.to_multiset().remove(x));
        assert(b.remove(k).to_multiset() =~= b.to_multiset().remove(x));
        lemma_order_is_irrelevant(a.drop_last(), b.remove(k), i);
        lemma_removal(b, k, i);
    }
}

/// The order in which sources are listed does not change the mix.
pub proof fn law_mix_ignores_the_order_of_sources(
    format: Option<AudioFormat>,
    a: Seq<ChunkView>,
    b: Seq<ChunkView>,
)
    requires
        a.to_multiset() =~= b.to_multiset(),
    ensures
        mixed(format, a) == mixed(format, b),
{
    lemma_order_is_irrelevant(a, b, 0);
    assert forall|i: int| sum_at(a, i) == sum_at(b, i) by {
        lemma_order_is_irrelevant(a, b, i);
    }
    if a.len() > 0 && fewest_frames(a) > 0 {
        assert(mixed(format, a)->0.pcm =~= mixed(format, b)->0.pcm);
    }
}

/// A single source passes through the mixer unchanged.
pub proof fn law_one_source_passes_through(format: AudioFormat, c: ChunkView)
    requires
        format.channels > 0,
        c.frames > 0,
        c.pcm.len() == c.frames * format.channels,
    ensures
        mixed(Some(format), seq![c]) == Some(c),
{
    let parts = seq![c];
    assert(parts.drop_last() == Seq::<ChunkView>::empty());
    assert(fewest_frames(parts) == c.frames) by {
        assert(fewest_frames(Seq::<ChunkView>::empty()) == u32::MAX);
    }
    assert(earliest_srt(parts) == c.srt) by {
        assert(earliest_srt(Seq::<ChunkView>::empty()) == i64::MAX);
    }
    assert forall|i: int| 0 <= i < c.pcm.len() implies sum_at(parts, i) == c.pcm[i] by {
        assert(sum_at(Seq::<ChunkView>::empty(), i) == 0);
    }
    assert(mixed(Some(format), parts)->0.pcm =~= c.pcm);
}

} // verus!
