//! What a round of the mixer comes to: which blocks enter the mix, and what the mix makes of them.

use super::gain::{gain_within, scaled, Gain};
use super::mixer::{
    column_sum, contributions, cut_slot, earliest_srt, failed, failed_at, fewest_frames,
    first_mismatch, fresh_grid, grid_fits, grid_of, limited, mix_channels, mixed, on_answer,
    on_chunk, on_idle, one_format, round, same_sources, shortest, slot_ready, stopped, sum_at, Grid,
    GridAdapter, GridState, SlotView,
};
use super::tap::{can_answer, words_of, words_of_failure, SourceAnswer, SourceEvent};
use super::{law_peak_is_the_largest_sample, peak_of, sample_size, AudioFormat, ChunkView};
use crate::error::MediaError;
use vstd::prelude::*;

verus! {

/// The block that a slot brings into the round.
pub open spec fn block_of(slot: SlotView) -> Option<ChunkView> {
    match slot {
        SlotView::Real(c) => Some(c),
        SlotView::Silent(c) => Some(c),
        SlotView::Pending => None,
    }
}

/// How many of the sources yielded a slot, real or silent.
pub open spec fn yielded(slots: Seq<SlotView>) -> nat
    decreases slots.len(),
{
    if slots.len() == 0 {
        0
    } else {
        yielded(slots.drop_last()) + (if slots.last() is Pending {
            0nat
        } else {
            1nat
        })
    }
}

/// Every slot that is not pending enters the mix, whether it holds samples of a device or
/// silence, and nothing else does.
pub proof fn law_every_slot_enters_the_mix(slots: Seq<SlotView>)
    ensures
        contributions(slots).len() == yielded(slots),
        forall|i: int|
            0 <= i < slots.len() ==> match #[trigger] slots[i] {
                SlotView::Real(c) => contributions(slots).contains(c),
                SlotView::Silent(c) => contributions(slots).contains(c),
                SlotView::Pending => true,
            },
        forall|k: int|
            0 <= k < contributions(slots).len() ==> exists|i: int|
                0 <= i < slots.len() && (#[trigger] slots[i] == SlotView::Real(
                    #[trigger] contributions(slots)[k],
                ) || slots[i] == SlotView::Silent(contributions(slots)[k])),
    decreases slots.len(),
{
    if slots.len() > 0 {
        let init = slots.drop_last();
        law_every_slot_enters_the_mix(init);
        let parts = contributions(slots);
        let before = contributions(init);
        assert forall|i: int| 0 <= i < slots.len() implies match #[trigger] slots[i] {
            SlotView::Real(c) => parts.contains(c),
            SlotView::Silent(c) => parts.contains(c),
            SlotView::Pending => true,
        } by {
            if i < slots.len() - 1 {
                assert(init[i] == slots[i]);
                if !(slots[i] is Pending) {
                    let c = block_of(slots[i])->0;
                    let k = choose|k: int| 0 <= k < before.len() && before[k] == c;
                    assert(parts[k] == c);
                }
            } else if !(slots[i] is Pending) {
                assert(parts[parts.len() - 1] == block_of(slots[i])->0);
            }
        }
        assert forall|k: int| 0 <= k < parts.len() implies exists|i: int|
            0 <= i < slots.len() && (#[trigger] slots[i] == SlotView::Real(#[trigger] parts[k])
                || slots[i] == SlotView::Silent(parts[k])) by {
            if k < before.len() {
                assert(parts[k] == before[k]);
                let i = choose|i: int|
                    0 <= i < init.len() && (#[trigger] init[i] == SlotView::Real(before[k])
                        || init[i] == SlotView::Silent(before[k]));
                assert(slots[i] == init[i]);
            } else {
                assert(slots[slots.len() - 1] == slots.last());
            }
        }
    }
}

/// The mix is as long as the shortest block and starts with the earliest one: it exceeds none of
/// them in frames, lies behind none of them in time, and both bounds are those of some block.
pub proof fn law_mix_has_the_extent_of_its_blocks(parts: Seq<ChunkView>)
    ensures
        forall|k: int| 0 <= k < parts.len() ==> fewest_frames(parts) <= (#[trigger] parts[k]).frames,
        forall|k: int| 0 <= k < parts.len() ==> earliest_srt(parts) <= (#[trigger] parts[k]).srt,
        parts.len() > 0 ==> exists|k: int|
            0 <= k < parts.len() && fewest_frames(parts) == (#[trigger] parts[k]).frames,
        parts.len() > 0 ==> exists|k: int|
            0 <= k < parts.len() && earliest_srt(parts) == (#[trigger] parts[k]).srt,
    decreases parts.len(),
{
    if parts.len() > 0 {
        let init = parts.drop_last();
        law_mix_has_the_extent_of_its_blocks(init);
        assert forall|k: int| 0 <= k < parts.len() implies fewest_frames(parts) <= (
        #[trigger] parts[k]).frames && earliest_srt(parts) <= parts[k].srt by {
            if k < init.len() {
                assert(init[k] == parts[k]);
            }
        }
        let end = parts.len() - 1;
        if init.len() == 0 || parts.last().frames < fewest_frames(init) {
            assert(fewest_frames(parts) == parts[end].frames);
        } else {
            let k = choose|k: int|
                0 <= k < init.len() && fewest_frames(init) == (#[trigger] init[k]).frames;
            assert(parts[k] == init[k]);
        }
        if init.len() == 0 || parts.last().srt < earliest_srt(init) {
            assert(earliest_srt(parts) == parts[end].srt);
        } else {
            let k = choose|k: int|
                0 <= k < init.len() && earliest_srt(init) == (#[trigger] init[k]).srt;
            assert(parts[k] == init[k]);
        }
    }
}

/// The stream goes on as long as any source yields a slot: a round with a slot, real or silent,
/// yields a block, unless a slot has no frame at all.
pub proof fn law_round_with_a_slot_yields_a_block(
    format: Option<AudioFormat>,
    slots: Seq<SlotView>,
    i: int,
)
    requires
        0 <= i < slots.len(),
        !(slots[i] is Pending),
        forall|j: int|
            0 <= j < slots.len() && !((#[trigger] slots[j]) is Pending) ==> block_of(slots[j])->0.frames
                > 0,
    ensures
        mixed(format, contributions(slots)) matches Some(c) && {
            &&& 0 < c.frames <= block_of(slots[i])->0.frames
            &&& c.srt <= block_of(slots[i])->0.srt
            &&& exists|j: int|
                0 <= j < slots.len() && !((#[trigger] slots[j]) is Pending) && c.srt == block_of(
                    slots[j],
                )->0.srt
            &&& c.pcm.len() == c.frames * mix_channels(format)
        },
{
    let parts = contributions(slots);
    law_every_slot_enters_the_mix(slots);
    law_mix_has_the_extent_of_its_blocks(parts);
    let block = block_of(slots[i])->0;
    let k = choose|k: int| 0 <= k < parts.len() && parts[k] == block;
    assert(parts[k].frames >= fewest_frames(parts));
    let low = choose|k: int|
        0 <= k < parts.len() && fewest_frames(parts) == (#[trigger] parts[k]).frames;
    assert(exists|j: int|
        0 <= j < slots.len() && (#[trigger] slots[j] == SlotView::Real(parts[low]) || slots[j]
            == SlotView::Silent(parts[low])));
    let first = choose|k: int|
        0 <= k < parts.len() && earliest_srt(parts) == (#[trigger] parts[k]).srt;
    assert(exists|j: int|
        0 <= j < slots.len() && (#[trigger] slots[j] == SlotView::Real(parts[first]) || slots[j]
            == SlotView::Silent(parts[first])));
    let n = fewest_frames(parts) * mix_channels(format);
    assert(n >= 0) by (nonlinear_arith)
        requires
            n == fewest_frames(parts) * mix_channels(format),
            fewest_frames(parts) >= 0,
            mix_channels(format) >= 0,
    ;
}

/// Each sample of the mix is the sum of the blocks' samples at its place, and the sum is limited
/// to 16 bits. To mix one block more is to add its samples; without a block there is nothing.
pub proof fn law_mix_is_the_limited_sum(
    format: Option<AudioFormat>,
    parts: Seq<ChunkView>,
    c: ChunkView,
    i: int,
)
    ensures
        sum_at(Seq::empty(), i) == 0,
        sum_at(parts.push(c), i) == sum_at(parts, i) + (if 0 <= i < c.pcm.len() {
            c.pcm[i] as int
        } else {
            0int
        }),
        mixed(format, parts) matches Some(mix) ==> 0 <= i < mix.pcm.len() ==> {
            let sum = sum_at(parts, i);
            &&& -32768 <= sum <= 32767 ==> mix.pcm[i] == sum
            &&& sum > 32767 ==> mix.pcm[i] == 32767
            &&& sum < -32768 ==> mix.pcm[i] == -32768
        },
{
    assert(parts.push(c).drop_last() =~= parts);
}

/// A round of silence is a block of silence: where no block holds anything but zeros, the mix
/// holds nothing but zeros.
pub proof fn law_silent_blocks_mix_to_silence(
    format: Option<AudioFormat>,
    parts: Seq<ChunkView>,
    i: int,
)
    requires
        forall|k: int, n: int|
            0 <= k < parts.len() && 0 <= n < parts[k].pcm.len() ==> #[trigger] parts[k].pcm[n]
                == 0,
    ensures
        sum_at(parts, i) == 0,
        mixed(format, parts) matches Some(mix) ==> 0 <= i < mix.pcm.len() ==> mix.pcm[i] == 0,
    decreases parts.len(),
{
    if parts.len() > 0 {
        let init = parts.drop_last();
        assert forall|k: int, n: int|
            0 <= k < init.len() && 0 <= n < init[k].pcm.len() implies #[trigger] init[k].pcm[n]
            == 0 by {
            assert(parts[k].pcm[n] == 0);
        }
        law_silent_blocks_mix_to_silence(format, init, i);
        let end = parts.len() - 1;
        if 0 <= i < parts[end].pcm.len() {
            assert(parts[end].pcm[i] == 0);
        }
    }
}

/// Blocks of samples add up in the same way: as far as the shortest one reaches, one block more
/// adds its samples.
pub proof fn law_blocks_add_up(blocks: Seq<&[i16]>, block: &[i16], i: int)
    ensures
        column_sum(Seq::empty(), i) == 0,
        column_sum(blocks.push(block), i) == column_sum(blocks, i) + block@[i],
        shortest(Seq::empty()) == 0,
        blocks.len() == 0 ==> shortest(blocks.push(block)) == block@.len(),
        blocks.len() > 0 ==> shortest(blocks.push(block)) <= block@.len() && shortest(
            blocks.push(block),
        ) <= shortest(blocks) && (shortest(blocks.push(block)) == block@.len() || shortest(
            blocks.push(block),
        ) == shortest(blocks)),
{
    assert(blocks.push(block).drop_last() =~= blocks);
}

/// A sample is limited to 16 bits: it is kept where it fits, and else replaced by the nearer end of
/// the range.
pub proof fn law_samples_are_limited(v: int)
    ensures
        -32768 <= v <= 32767 ==> limited(v) == v,
        v > 32767 ==> limited(v) == 32767,
        v < -32768 ==> limited(v) == -32768,
{
}

/// A packet that lies before the next slot leaves no sound: it is counted and nothing else
/// changes. Any other packet joins what is pending, and the first one sets the clock.
pub proof fn law_late_packets_are_left_out(grid: Grid, s: GridState, c: ChunkView)
    ensures
        (s.cursor matches Some(cur) && c.srt < cur) ==> {
            let (next, slot) = on_chunk(grid, s, c);
            &&& slot is Pending
            &&& next.pending == s.pending
            &&& next.cursor == s.cursor
            &&& next.metrics.chunks == s.metrics.chunks
            &&& next.metrics.filler_blocks == s.metrics.filler_blocks
            &&& next.metrics.peak == s.metrics.peak
            &&& s.metrics.dropped_backwards < u64::MAX ==> next.metrics.dropped_backwards
                == s.metrics.dropped_backwards + 1
        },
        !(s.cursor matches Some(cur) && c.srt < cur) ==> {
            let (next, slot) = on_chunk(grid, s, c);
            &&& next.metrics.dropped_backwards == s.metrics.dropped_backwards
            &&& slot is Pending <==> s.pending.len() + c.pcm.len() < grid.slot_samples()
            &&& slot is Pending ==> next.pending == s.pending + c.pcm && next.cursor == (
            if s.cursor is Some {
                s.cursor
            } else {
                Some(c.srt)
            })
            &&& slot matches SlotView::Real(out) ==> out.srt == (if s.cursor is Some {
                s.cursor->0
            } else {
                c.srt
            })
            &&& !(slot is Silent)
        },
{
}

/// The peaks of a source follow its packets: afterwards they are no less than before and no less
/// than any sample, and they are reached by a sample unless they are as before.
pub proof fn law_peaks_follow_the_packets(grid: Grid, s: GridState, c: ChunkView, i: int)
    requires
        !(s.cursor matches Some(cur) && c.srt < cur),
        0 <= i < c.pcm.len(),
    ensures
        ({
            let m = on_chunk(grid, s, c).0.metrics;
            &&& m.peak >= s.metrics.peak && m.peak >= sample_size(c.pcm[i])
            &&& m.peak_last_sec >= s.metrics.peak_last_sec && m.peak_last_sec >= sample_size(
                c.pcm[i],
            )
            &&& m.peak == s.metrics.peak || exists|k: int|
                0 <= k < c.pcm.len() && sample_size(#[trigger] c.pcm[k]) == m.peak
            &&& m.peak_last_sec == s.metrics.peak_last_sec || exists|k: int|
                0 <= k < c.pcm.len() && sample_size(#[trigger] c.pcm[k]) == m.peak_last_sec
        }),
{
    law_peak_is_the_largest_sample(c.pcm);
    assert(peak_of(c.pcm) <= 32768) by {
        let k = choose|k: int|
            0 <= k < c.pcm.len() && sample_size(#[trigger] c.pcm[k]) == peak_of(c.pcm);
        assert(sample_size(c.pcm[k]) <= 32768);
    }
}

/// Silence comes when it is due and not before: a slot that no packet fills is given up exactly
/// when a tenth of a second has passed since its end. A source that never delivered is not waited
/// for: its clock starts a tenth of a second ago.
pub proof fn law_silence_comes_when_due(grid: Grid, s: GridState, now: i64)
    requires
        grid_fits(grid.format, grid.slot_frames),
        grid.slot_duration() > 0,
        i64::MIN + 1_000_000 <= now,
        s.next_srt() + grid.slot_duration() <= i64::MAX,
        now + grid.slot_duration() <= i64::MAX,
    ensures
        s.cursor matches Some(cur) ==> {
            let (next, slot) = on_idle(grid, s, now);
            &&& slot is Silent <==> cur + grid.slot_duration() + 1_000_000 <= now
            &&& slot is Silent || slot is Pending
            &&& slot matches SlotView::Silent(out) ==> {
                &&& out.srt == cur
                &&& out.pcm.len() == grid.slot_samples()
                &&& forall|i: int|
                    s.pending.len() <= i < out.pcm.len() ==> #[trigger] out.pcm[i] == 0
                &&& next.cursor == Some((cur + grid.slot_duration()) as i64)
            }
            &&& slot is Pending ==> next == s
        },
        s.cursor is None ==> {
            let (next, slot) = on_idle(grid, s, now);
            &&& slot is Pending
            &&& next.cursor == Some((now - 1_000_000) as i64)
            &&& next.pending == s.pending
            &&& next.metrics == s.metrics
        },
{
    assert(grid.slot_samples() >= 0) by (nonlinear_arith)
        requires
            grid.slot_samples() == grid.slot_frames * grid.format.channels,
    ;
}

/// A slot that is cut counts once, and as filler exactly where it is silent; nothing that stays
/// pending is touched.
pub proof fn law_cut_slots_are_counted(grid: Grid, s: GridState, silent: bool)
    requires
        s.metrics.chunks < u64::MAX,
        s.metrics.filler_blocks < u64::MAX,
        slot_ready(grid, s),
        grid.slot_samples() >= 0,
    ensures
        ({
            let (next, slot) = cut_slot(grid, s, silent);
            &&& next.metrics.chunks == s.metrics.chunks + 1
            &&& next.metrics.filler_blocks == s.metrics.filler_blocks + (if silent {
                1int
            } else {
                0int
            })
            &&& next.metrics.dropped_backwards == s.metrics.dropped_backwards
            &&& next.metrics.peak == s.metrics.peak
            &&& slot is Silent <==> silent
            &&& slot is Real <==> !silent
            &&& next.pending.len() == s.pending.len() - grid.slot_samples()
            &&& forall|i: int|
                0 <= i < next.pending.len() ==> #[trigger] next.pending[i] == s.pending[i
                    + grid.slot_samples()]
        }),
{
}

/// A slot holds the samples that came first, each under the gain, and silence behind them; it has
/// as many frames as the grid wants, of all channels.
pub proof fn law_slots_hold_the_first_samples(grid: Grid, s: GridState, silent: bool, i: int)
    requires
        grid.slot_frames <= u32::MAX,
        0 <= i < grid.slot_frames * grid.format.channels,
    ensures
        ({
            let block = block_of(cut_slot(grid, s, silent).1)->0;
            &&& !(cut_slot(grid, s, silent).1 is Pending)
            &&& block.pcm.len() == grid.slot_frames * grid.format.channels
            &&& block.frames == grid.slot_frames
            &&& i < s.pending.len() ==> block.pcm[i] == scaled(s.pending[i], grid.gain.0)
            &&& i >= s.pending.len() ==> block.pcm[i] == 0
            &&& s.cursor matches Some(cur) ==> block.srt == cur
            &&& s.cursor is None ==> block.srt == 0
        }),
{
}

/// A slot lasts as long as its frames take at the sample rate, in whole ticks.
pub proof fn law_slots_last_as_long_as_their_frames(grid: Grid)
    requires
        grid.format.sample_rate > 0,
    ensures
        grid.slot_duration() * grid.format.sample_rate <= grid.slot_frames * 10_000_000 < (
        grid.slot_duration() + 1) * grid.format.sample_rate,
        grid.slot_samples() == grid.slot_frames * grid.format.channels,
{
    let a = grid.slot_frames * 10_000_000;
    let b = grid.format.sample_rate as int;
    vstd::arithmetic::div_mod::lemma_fundamental_div_mod(a, b);
    vstd::arithmetic::div_mod::lemma_mod_bound(a, b);
    let q = a / b;
    let r = a % b;
    assert(q * b <= a < (q + 1) * b) by (nonlinear_arith)
        requires
            a == b * q + r,
            0 <= r < b,
    ;
}

/// A grid takes the format as it is, the gain within its range, and slots of at least one frame;
/// before its source was asked nothing waits and nothing is counted.
pub proof fn law_grids_start_empty(format: AudioFormat, gain: Gain, slot_frames: usize)
    ensures
        grid_of(format, gain, slot_frames).format == format,
        grid_of(format, gain, slot_frames).gain == gain_within(gain),
        slot_frames > 0 ==> grid_of(format, gain, slot_frames).slot_frames == slot_frames,
        grid_of(format, gain, 0).slot_frames == 1,
        fresh_grid().pending.len() == 0,
        fresh_grid().cursor is None,
        fresh_grid().metrics.chunks == 0 && fresh_grid().metrics.filler_blocks == 0,
        fresh_grid().metrics.peak == 0 && fresh_grid().metrics.peak_last_sec == 0,
        fresh_grid().metrics.dropped_backwards == 0,
{
}

/// A round asks every source once: one with a complete slot yields it without being asked, any
/// other one is asked for a packet, and for the time where it has none.
pub proof fn law_rounds_ask_every_source(
    before: Seq<GridAdapter>,
    after: Seq<GridAdapter>,
    slots: Seq<SlotView>,
    i: int,
)
    requires
        round(before, after, slots),
        0 <= i < before.len(),
    ensures
        slots.len() == before.len(),
        after.len() == before.len(),
        before[i].state().pending.len() >= before[i].grid().slot_samples() ==> {
            &&& slots[i] is Real
            &&& after[i].heard() == before[i].heard()
        },
        before[i].state().pending.len() < before[i].grid().slot_samples() ==> {
            let n = before[i].heard().len() as int;
            &&& after[i].heard().len() > n
            &&& after[i].heard().take(n) == before[i].heard()
            &&& after[i].heard()[n] is Gave || (after[i].heard()[n] is Nothing
                && after[i].heard().len() == n + 2 && after[i].heard()[n + 1] is Told)
            &&& after[i].heard()[n] is Gave ==> after[i].heard().len() == n + 1 && !(
            slots[i] is Silent)
            &&& after[i].heard()[n] is Nothing ==> !(slots[i] is Real)
        },
{
    if before[i].state().pending.len() < before[i].grid().slot_samples() {
        assert(!slot_ready(before[i].grid(), before[i].state()));
        let answer = choose|answer: SourceAnswer| #[trigger]
            can_answer(before[i].source(), answer) && (after[i].state(), slots[i])
                == on_answer(before[i].grid(), before[i].state(), answer)
                && after[i].heard() == before[i].heard() + words_of(answer);
        assert((before[i].heard() + words_of(answer)).take(before[i].heard().len() as int)
            =~= before[i].heard());
    }
}

/// What is heard of an answer is the answer: the packet itself, or that there is none and then the
/// time.
pub proof fn law_answers_are_heard_as_given(answer: SourceAnswer)
    ensures
        answer matches SourceAnswer::Packet(c) ==> words_of(answer).len() == 1 && words_of(
            answer,
        )[0] == SourceEvent::Gave(c),
        answer matches SourceAnswer::Idle(now) ==> {
            &&& words_of(answer).len() == 2
            &&& words_of(answer)[0] is Nothing
            &&& words_of(answer)[1] == SourceEvent::Told(now)
        },
{
}

/// A mix has the channels of its format.
pub proof fn law_mix_keeps_the_channels(f: AudioFormat)
    ensures
        f.channels > 0 ==> mix_channels(Some(f)) == f.channels,
        mix_channels(None) == 1,
{
}

/// Either all sources have one format, or there is a first one that differs.
pub proof fn law_formats_agree_or_one_differs(adapters: Seq<GridAdapter>, i: int, j: int)
    requires
        0 <= i < adapters.len(),
        0 <= j < adapters.len(),
    ensures
        one_format(adapters) ==> adapters[i].grid().format == adapters[j].grid().format,
        first_mismatch(adapters, i) ==> adapters[i].grid().format != adapters[0].grid().format,
        first_mismatch(adapters, i) && j < i ==> adapters[j].grid().format
            == adapters[0].grid().format,
        first_mismatch(adapters, i) ==> !one_format(adapters),
{
}

/// Mixing changes neither the place of a source nor what it is.
pub proof fn law_sources_stay_themselves(
    before: Seq<GridAdapter>,
    after: Seq<GridAdapter>,
    i: int,
)
    requires
        same_sources(before, after),
        0 <= i < before.len(),
    ensures
        after.len() == before.len(),
        after[i].identity() == before[i].identity(),
        after[i].grid() == before[i].grid(),
        after[i].source() == before[i].source(),
{
}

/// A source that is told to stop hears that and nothing else: what waits and what was counted stays
/// as it was.
pub proof fn law_stopping_is_all_a_source_hears(before: GridAdapter, after: GridAdapter)
    requires
        stopped(before, after),
    ensures
        after.state() == before.state(),
        after.grid() == before.grid(),
        after.identity() == before.identity(),
        after.source() == before.source(),
        after.heard().len() == before.heard().len() + 1,
        after.heard().drop_last() == before.heard(),
        after.heard().last() is Stopped,
{
    assert(before.heard().push(SourceEvent::Stopped).drop_last() =~= before.heard());
}

/// A round that fails ends at the source that failed: its samples are kept, and no source behind
/// it is asked.
pub proof fn law_failed_rounds_end_at_the_failure(
    before: Seq<GridAdapter>,
    after: Seq<GridAdapter>,
    k: int,
    e: MediaError,
    i: int,
)
    requires
        failed_at(before, after, k, e),
        0 <= i < before.len(),
    ensures
        after.len() == before.len(),
        0 <= k < before.len(),
        i == k ==> after[i].state() == before[i].state() && before[i].state().pending.len()
            < before[i].grid().slot_samples(),
        i > k ==> after[i].state() == before[i].state() && after[i].heard() == before[i].heard(),
        after[k].heard().len() > before[k].heard().len(),
        after[k].heard().last() == SourceEvent::Failed(e) || after[k].heard().last()
            == SourceEvent::ClockFailed(e),
{
    assert(failed(before[k], after[k], e));
    let words = choose|words: Seq<SourceEvent>| #[trigger]
        words_of_failure(before[k].source(), words, e) && after[k].heard() == before[k].heard()
            + words;
    assert(after[k].heard().last() == words.last());
}

/// A round in which every source that yields anything yields silence is a block of silence at the
/// earliest of their times.
pub proof fn law_rounds_of_silence_yield_silence(
    format: Option<AudioFormat>,
    slots: Seq<SlotView>,
    i: int,
)
    requires
        0 <= i < slots.len(),
        slots[i] is Silent,
        forall|j: int|
            0 <= j < slots.len() ==> match #[trigger] slots[j] {
                SlotView::Real(_) => false,
                SlotView::Silent(c) => c.frames > 0 && forall|n: int|
                    0 <= n < c.pcm.len() ==> #[trigger] c.pcm[n] == 0,
                SlotView::Pending => true,
            },
    ensures
        mixed(format, contributions(slots)) matches Some(c) && {
            &&& 0 < c.frames
            &&& forall|n: int| 0 <= n < c.pcm.len() ==> #[trigger] c.pcm[n] == 0
            &&& forall|j: int|
                0 <= j < slots.len() && !((#[trigger] slots[j]) is Pending) ==> c.srt <= block_of(
                    slots[j],
                )->0.srt
            &&& exists|j: int|
                0 <= j < slots.len() && !((#[trigger] slots[j]) is Pending) && c.srt == block_of(
                    slots[j],
                )->0.srt
        },
{
    let parts = contributions(slots);
    law_every_slot_enters_the_mix(slots);
    law_round_with_a_slot_yields_a_block(format, slots, i);
    let c = mixed(format, parts)->0;
    assert forall|k: int, n: int|
        0 <= k < parts.len() && 0 <= n < parts[k].pcm.len() implies #[trigger] parts[k].pcm[n]
        == 0 by {
        let j = choose|j: int|
            0 <= j < slots.len() && (#[trigger] slots[j] == SlotView::Real(parts[k]) || slots[j]
                == SlotView::Silent(parts[k]));
        assert(slots[j] == SlotView::Silent(parts[k]));
    }
    assert forall|n: int| 0 <= n < c.pcm.len() implies #[trigger] c.pcm[n] == 0 by {
        law_silent_blocks_mix_to_silence(format, parts, n);
    }
    assert forall|j: int| 0 <= j < slots.len() && !((#[trigger] slots[j]) is Pending) implies c.srt
        <= block_of(slots[j])->0.srt by {
        law_round_with_a_slot_yields_a_block(format, slots, j);
    }
}

} // verus!
