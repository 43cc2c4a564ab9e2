//! The bounded queues between the threads of a recording.
//!
//! A queue is shared with another thread, which takes items out at any moment. What is stated
//! here therefore holds whatever that thread does. The sending side keeps a ghost log of what was
//! asked of the queue and what the queue answered; only the functions that ask extend it. An
//! item that was not accepted is handed back unchanged, and a queue keeps its two ends and the
//! capacity it was made with.

use crate::engine::sound::AudioItem;
use crate::engine::tick::TickItem;
use vstd::prelude::*;

verus! {

/// The sending side of a queue of the crate crossbeam-channel.
#[verifier::external_type_specification]
#[verifier::external_body]
#[verifier::reject_recursive_types(T)]
pub struct ExSender<T>(crossbeam_channel::Sender<T>);

/// The receiving side of a queue of the crate crossbeam-channel.
#[verifier::external_type_specification]
#[verifier::external_body]
#[verifier::reject_recursive_types(T)]
pub struct ExReceiver<T>(crossbeam_channel::Receiver<T>);

/// What came of an attempt to send.
#[derive(Debug)]
pub enum SendOutcome<T> {
    Sent,
    /// The queue had no room; the item comes back.
    Full(T),
    /// The receiver is gone; the item comes back.
    Closed(T),
}

/// The number of frames that a queue was made for.
pub uninterp spec fn frame_capacity(tx: crossbeam_channel::Sender<TickItem>) -> nat;

/// The number of packets that a queue was made for.
pub uninterp spec fn packet_capacity(tx: crossbeam_channel::Sender<AudioItem>) -> nat;

/// The two are the ends of one queue of frames: what goes in at `tx` comes out at `rx`.
pub uninterp spec fn joined_frames(
    tx: crossbeam_channel::Sender<TickItem>,
    rx: crossbeam_channel::Receiver<TickItem>,
) -> bool;

/// The two are the ends of one queue of packets: what goes in at `tx` comes out at `rx`.
pub uninterp spec fn joined_packets(
    tx: crossbeam_channel::Sender<AudioItem>,
    rx: crossbeam_channel::Receiver<AudioItem>,
) -> bool;

/// The answer of a queue to an attempt to send.
pub enum Answer {
    Taken,
    NoRoom,
    Gone,
}

/// The answer that an attempt to send met with.
pub open spec fn answer_of<T>(outcome: SendOutcome<T>) -> Answer {
    match outcome {
        SendOutcome::Sent => Answer::Taken,
        SendOutcome::Full(_) => Answer::NoRoom,
        SendOutcome::Closed(_) => Answer::Gone,
    }
}

/// Something that was asked of a queue.
pub enum QueueEvent<T> {
    /// An item was offered.
    Offered(T, Answer),
    /// The oldest item was asked for, and taken out where there was one.
    Removed(Option<T>),
}

/// The sending side of a queue, with the log of what was sent.
#[verifier::reject_recursive_types(T)]
pub struct Outlet<T> {
    tx: crossbeam_channel::Sender<T>,
    log: Ghost<Seq<QueueEvent<T>>>,
}

impl<T> Outlet<T> {
    pub closed spec fn sender(&self) -> crossbeam_channel::Sender<T> {
        self.tx
    }

    /// What was asked of the queue so far, in order.
    pub closed spec fn log(&self) -> Seq<QueueEvent<T>> {
        self.log@
    }

    pub(crate) fn new(tx: crossbeam_channel::Sender<T>) -> (outlet: Outlet<T>)
        ensures
            outlet.sender() == tx,
            outlet.log() == Seq::<QueueEvent<T>>::empty(),
    {
        Outlet { tx, log: Ghost(Seq::empty()) }
    }
}

/// The sending side of the queue of frames. It can also take frames out, to make room.
pub struct FrameQueue {
    pub outlet: Outlet<TickItem>,
    /// The receiving side that frames are taken out of.
    pub oldest: crossbeam_channel::Receiver<TickItem>,
}

impl FrameQueue {
    /// Frames are taken out of the queue that they are sent into.
    pub open spec fn wf(&self) -> bool {
        joined_frames(self.outlet.sender(), self.oldest)
    }

    /// What was asked of the queue so far, in order.
    pub open spec fn log(&self) -> Seq<QueueEvent<TickItem>> {
        self.outlet.log()
    }

    /// Nothing but the log changes.
    pub open spec fn same_queue(&self, before: &FrameQueue) -> bool {
        self.outlet.sender() == before.outlet.sender() && self.oldest == before.oldest
    }
}

/// An item that was not accepted comes back.
pub open spec fn handed_back<T>(r: SendOutcome<T>, item: T) -> bool {
    match r {
        SendOutcome::Sent => true,
        SendOutcome::Full(back) => back == item,
        SendOutcome::Closed(back) => back == item,
    }
}

/// `crossbeam_channel::bounded` makes a queue that holds up to `capacity` items, and gives its two
/// ends.
#[verifier::external_body]
pub(crate) fn bounded_frames(capacity: usize) -> (r: (
    crossbeam_channel::Sender<TickItem>,
    crossbeam_channel::Receiver<TickItem>,
))
    requires
        0 < capacity <= 4096,
    ensures
        frame_capacity(r.0) == capacity,
        joined_frames(r.0, r.1),
{
    crossbeam_channel::bounded(capacity)
}

/// `crossbeam_channel::bounded` makes a queue that holds up to `capacity` items, and gives its two
/// ends.
#[verifier::external_body]
pub(crate) fn bounded_packets(capacity: usize) -> (r: (
    crossbeam_channel::Sender<AudioItem>,
    crossbeam_channel::Receiver<AudioItem>,
))
    requires
        0 < capacity <= 4096,
    ensures
        packet_capacity(r.0) == capacity,
        joined_packets(r.0, r.1),
{
    crossbeam_channel::bounded(capacity)
}

/// `Receiver::clone` gives another handle on the receiving side of the same queue.
#[verifier::external_body]
pub(crate) fn same_receiver(rx: &crossbeam_channel::Receiver<TickItem>) -> (r:
    crossbeam_channel::Receiver<TickItem>)
    ensures
        r == *rx,
{
    rx.clone()
}

/// `Sender::try_send` puts an item into a queue without waiting. Whether there is room depends on
/// the other thread. The item is taken, or the queue is full, or no receiver is left; an item
/// that is not taken comes back as it was. The attempt is logged with its answer; which of the
/// three it is, is left open.
#[verifier::external_body]
pub(crate) fn try_send<T>(outlet: &mut Outlet<T>, item: T) -> (r: SendOutcome<T>)
    ensures
        final(outlet).sender() == old(outlet).sender(),
        final(outlet).log() == old(outlet).log().push(QueueEvent::Offered(item, answer_of(r))),
        handed_back(r, item),
{
    match outlet.tx.try_send(item) {
        Ok(()) => SendOutcome::Sent,
        Err(crossbeam_channel::TrySendError::Full(back)) => SendOutcome::Full(back),
        Err(crossbeam_channel::TrySendError::Disconnected(back)) => SendOutcome::Closed(back),
    }
}

/// `Receiver::try_recv` takes the oldest frame out of a queue without waiting, where there is one.
/// The removal is logged with what came out. Which frame that is, and whether there is one,
/// depends on the other threads and is left open.
#[verifier::external_body]
pub(crate) fn take_oldest(queue: &mut FrameQueue) -> (r: Option<TickItem>)
    requires
        old(queue).wf(),
    ensures
        final(queue).same_queue(old(queue)),
        final(queue).log() == old(queue).log().push(QueueEvent::Removed(r)),
{
    queue.oldest.try_recv().ok()
}

/// An item was taken exactly where it was sent; otherwise it comes back as it was.
pub proof fn law_items_are_taken_or_come_back<T>(outcome: SendOutcome<T>, item: T)
    ensures
        answer_of(outcome) is Taken <==> outcome is Sent,
        answer_of(outcome) is NoRoom <==> outcome is Full,
        answer_of(outcome) is Gone <==> outcome is Closed,
        handed_back(outcome, item) && outcome is Full ==> outcome == SendOutcome::Full(item),
        handed_back(outcome, item) && outcome is Closed ==> outcome == SendOutcome::Closed(item),
{
}

/// Whatever is asked of the queue, it stays the same queue.
pub proof fn law_queues_stay_themselves(before: FrameQueue, after: FrameQueue)
    requires
        after.same_queue(&before),
    ensures
        after.outlet.sender() == before.outlet.sender(),
        after.oldest == before.oldest,
{
}

} // verus!
