//! Runs of an adapter: what holds after any number of polls.
//!
//! A run starts with a fresh adapter. Each poll is one call of
//! [`super::mixer::GridAdapter::poll_slot`]: a complete slot is cut, and only where there is none
//! is the source asked.

use super::gain::{Gain, ONE_BITS};
use super::mixer::{
    cut_slot, fresh_grid, grid_fits, law_packets_enter_completely, law_slot_times_follow_the_device,
    law_slots_preserve_content, on_answer, slot_ready, Grid, GridState, SlotView,
};
use super::tap::SourceAnswer;
use super::ChunkView;
use vstd::prelude::*;

verus! {

/// A run after some polls.
pub struct Run {
    pub state: GridState,
    /// How often the source was asked.
    pub asked: nat,
    /// The slots that were yielded; a poll that failed yielded none.
    pub slots: Seq<SlotView>,
}

/// A run before its first poll.
pub open spec fn run_start() -> Run {
    Run { state: fresh_grid(), asked: 0, slots: Seq::empty() }
}

/// One more poll. The source replies with the next of `replies`, where nothing stands for an
/// error.
pub open spec fn polled(grid: Grid, r: Run, replies: Seq<Option<SourceAnswer>>) -> Run {
    if slot_ready(grid, r.state) {
        let (next, slot) = cut_slot(grid, r.state, false);
        Run { state: next, asked: r.asked, slots: r.slots.push(slot) }
    } else {
        match replies[r.asked as int] {
            None => Run { asked: r.asked + 1, ..r },
            Some(answer) => {
                let (next, slot) = on_answer(grid, r.state, answer);
                Run { state: next, asked: r.asked + 1, slots: r.slots.push(slot) }
            },
        }
    }
}

/// The run after `n` polls.
pub open spec fn after_polls(grid: Grid, replies: Seq<Option<SourceAnswer>>, n: nat) -> Run
    decreases n,
{
    if n == 0 {
        run_start()
    } else {
        polled(grid, after_polls(grid, replies, (n - 1) as nat), replies)
    }
}

/// The blocks with samples of the device.
pub open spec fn real_slots(slots: Seq<SlotView>) -> Seq<ChunkView>
    decreases slots.len(),
{
    if slots.len() == 0 {
        Seq::empty()
    } else {
        let earlier = real_slots(slots.drop_last());
        match slots.last() {
            SlotView::Real(c) => earlier.push(c),
            _ => earlier,
        }
    }
}

/// The number of slots that were filled with silence.
pub open spec fn silent_slots(slots: Seq<SlotView>) -> nat
    decreases slots.len(),
{
    if slots.len() == 0 {
        0
    } else {
        silent_slots(slots.drop_last()) + (if slots.last() is Silent {
            1nat
        } else {
            0nat
        })
    }
}

/// The samples of blocks, one after the other.
pub open spec fn samples_of(blocks: Seq<ChunkView>) -> Seq<i16>
    decreases blocks.len(),
{
    if blocks.len() == 0 {
        Seq::empty()
    } else {
        samples_of(blocks.drop_last()) + blocks.last().pcm
    }
}

/// The packets that the source delivered the first `n` times it was asked.
pub open spec fn packets(replies: Seq<Option<SourceAnswer>>, n: nat) -> Seq<ChunkView> {
    Seq::new(n, |i: int| replies[i]->0->Packet_0)
}

/// The counters of a source tell the slots apart: after any run, the difference of the two is the
/// number of slots with samples of the device, and the filler count is the number of slots that
/// were filled with silence.
pub proof fn law_counters_match_the_slots(
    grid: Grid,
    replies: Seq<Option<SourceAnswer>>,
    n: nat,
)
    requires
        n <= u64::MAX,
    ensures
        ({
            let r = after_polls(grid, replies, n);
            let m = r.state.metrics;
            &&& m.chunks == real_slots(r.slots).len() + silent_slots(r.slots)
            &&& m.filler_blocks == silent_slots(r.slots)
            &&& m.chunks - m.filler_blocks == real_slots(r.slots).len()
            &&& r.slots.len() <= n
            &&& m.chunks <= r.slots.len()
        }),
    decreases n,
{
    if n > 0 {
        let before = after_polls(grid, replies, (n - 1) as nat);
        let r = after_polls(grid, replies, n);
        law_counters_match_the_slots(grid, replies, (n - 1) as nat);
        if r.slots.len() > before.slots.len() {
            assert(r.slots.drop_last() =~= before.slots);
        }
    }
}

/// The source delivers a packet whenever it is asked, and none of them lies before the next slot.
pub open spec fn delivers(grid: Grid, replies: Seq<Option<SourceAnswer>>, n: nat) -> bool {
    &&& replies.len() >= n
    &&& forall|i: int|
        0 <= i < n ==> (#[trigger] replies[i]) is Some && replies[i]->0 is Packet
    &&& forall|m: nat|
        m < n ==> {
            let r = #[trigger] after_polls(grid, replies, m);
            !slot_ready(grid, r.state) ==> (r.state.cursor matches Some(cur) ==> cur
                <= replies[r.asked as int]->0->Packet_0.srt)
        }
}

/// A block of a run: as long as the grid asks, at its place on the clock of the device.
pub open spec fn in_place(grid: Grid, block: ChunkView, start: int, j: int) -> bool {
    &&& block.frames == grid.slot_frames as u32
    &&& block.pcm.len() == grid.slot_samples()
    &&& block.srt == start + j * grid.slot_duration()
}

/// Cutting packets into slots loses, repeats and reorders nothing: after any run, the blocks that
/// were yielded are the first samples of the packets, and what is missing is still pending. Every
/// block has the length of the grid, and the time of the first packet advanced by the blocks
/// before it.
pub proof fn law_blocks_are_the_packets(
    grid: Grid,
    replies: Seq<Option<SourceAnswer>>,
    n: nat,
)
    requires
        grid.gain == Gain(ONE_BITS),
        grid_fits(grid.format, grid.slot_frames),
        grid.slot_samples() > 0,
        delivers(grid, replies, n),
        n > 0 ==> replies[0]->0->Packet_0.srt + n * grid.slot_duration() <= i64::MAX,
    ensures
        ({
            let r = after_polls(grid, replies, n);
            let blocks = real_slots(r.slots);
            let given = samples_of(packets(replies, r.asked));
            let start = replies[0]->0->Packet_0.srt as int;
            &&& samples_of(blocks) + r.state.pending =~= given
            &&& samples_of(blocks).len() == blocks.len() * grid.slot_samples()
            &&& samples_of(blocks) =~= given.take(blocks.len() * grid.slot_samples())
            &&& forall|j: int|
                0 <= j < blocks.len() ==> in_place(grid, #[trigger] blocks[j], start, j)
            &&& silent_slots(r.slots) == 0
            &&& r.asked <= n
            &&& blocks.len() <= n
            &&& n > 0 ==> r.asked > 0
            &&& r.asked == 0 ==> r.state == fresh_grid() && blocks.len() == 0
            &&& r.asked > 0 ==> r.state.cursor == Some(
                (start + blocks.len() * grid.slot_duration()) as i64,
            )
        }),
    decreases n,
{
    let size = grid.slot_samples();
    let d = grid.slot_duration();
    let start = replies[0]->0->Packet_0.srt as int;
    assert(d >= 0) by {
        vstd::arithmetic::div_mod::lemma_div_pos_is_pos(
            grid.slot_frames * 10_000_000,
            grid.format.sample_rate as int,
        );
    }
    if n == 0 {
        assert(packets(replies, 0) =~= Seq::empty());
        assert(0 * size == 0) by (nonlinear_arith);
    } else {
        let i = (n - 1) as nat;
        assert(i * d <= n * d) by (nonlinear_arith)
            requires
                i <= n,
                d >= 0,
        ;
        assert forall|m: nat| m < i implies {
            let r = #[trigger] after_polls(grid, replies, m);
            !slot_ready(grid, r.state) ==> (r.state.cursor matches Some(cur) ==> cur
                <= replies[r.asked as int]->0->Packet_0.srt)
        } by {
            assert(m < n);
        }
        law_blocks_are_the_packets(grid, replies, i);
        let before = after_polls(grid, replies, i);
        let r = after_polls(grid, replies, n);
        let old_blocks = real_slots(before.slots);
        let blocks = real_slots(r.slots);
        let k = old_blocks.len() as int;
        assert(r.slots.drop_last() =~= before.slots);
        assert(0 <= k * d <= i * d) by (nonlinear_arith)
            requires
                0 <= k <= i,
                d >= 0,
        ;
        assert((k + 1) * d == k * d + d) by (nonlinear_arith);
        assert(k * d + d <= n * d) by (nonlinear_arith)
            requires
                k + 1 <= n,
                d >= 0,
        ;
        assert((k + 1) * size == k * size + size) by (nonlinear_arith);
        if slot_ready(grid, before.state) {
            law_slots_preserve_content(grid, before.state);
            law_slot_times_follow_the_device(grid, before.state, false);
        } else {
            let c = replies[before.asked as int]->0->Packet_0;
            assert(replies[before.asked as int] is Some);
            law_packets_enter_completely(grid, before.state, c);
            assert(packets(replies, r.asked).drop_last() =~= packets(replies, before.asked));
            assert(packets(replies, r.asked).last() == c);
            let grown = GridState {
                pending: before.state.pending + c.pcm,
                cursor: match before.state.cursor {
                    Some(cur) => Some(cur),
                    None => Some(c.srt),
                },
                ..before.state
            };
            law_slot_times_follow_the_device(grid, grown, false);
        }
        if r.slots.last() is Real {
            assert(blocks.drop_last() =~= old_blocks);
            assert(in_place(grid, blocks.last(), start, k));
        }
    }
}

} // verus!
