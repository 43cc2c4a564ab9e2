//! Asking a source. Every question is put through a [`Tap`], which remembers what it heard.

use super::source::AudioSource;
use super::{AudioChunk, ChunkView};
use crate::error::{MediaError, MediaResult};
use crate::time::Srt100ns;
use vstd::prelude::*;

verus! {

/// A source of any make, held by its owner.
pub struct Held<T>(pub T);

/// What passed between a source and its owner.
pub enum SourceEvent {
    /// It gave a packet.
    Gave(ChunkView),
    /// It had no packet waiting.
    Nothing,
    /// It failed when it was asked for a packet.
    Failed(MediaError),
    /// Its clock showed this time.
    Told(i64),
    /// It failed when it was asked for the time.
    ClockFailed(MediaError),
    /// It was told to stop.
    Stopped,
}

/// What is heard of the question for a packet.
pub open spec fn packet_word(r: MediaResult<Option<AudioChunk>>) -> SourceEvent {
    match r {
        Ok(Some(chunk)) => SourceEvent::Gave(chunk@),
        Ok(None) => SourceEvent::Nothing,
        Err(e) => SourceEvent::Failed(e),
    }
}

/// What is heard of the question for the time.
pub open spec fn clock_word(r: MediaResult<Srt100ns>) -> SourceEvent {
    match r {
        Ok(now) => SourceEvent::Told(now.0),
        Err(e) => SourceEvent::ClockFailed(e),
    }
}

/// What a source answers when it is asked for its share of a slot.
pub enum SourceAnswer {
    Packet(ChunkView),
    /// No packet is waiting at this time.
    Idle(i64),
}

/// An answer that the source can give.
pub open spec fn can_answer(source: Held<Box<dyn AudioSource>>, answer: SourceAnswer) -> bool {
    match answer {
        SourceAnswer::Packet(c) => source.0.can_give(c),
        SourceAnswer::Idle(now) => source.0.can_pause() && source.0.can_tell(now),
    }
}

/// What is heard of an answer: a packet, or that there is none and then the time.
pub open spec fn words_of(answer: SourceAnswer) -> Seq<SourceEvent> {
    match answer {
        SourceAnswer::Packet(c) => seq![SourceEvent::Gave(c)],
        SourceAnswer::Idle(now) => seq![SourceEvent::Nothing, SourceEvent::Told(now)],
    }
}

/// What is heard of a failure: of the question for a packet, or of that for the time.
pub open spec fn words_of_failure(
    source: Held<Box<dyn AudioSource>>,
    words: Seq<SourceEvent>,
    e: MediaError,
) -> bool {
    &&& source.0.can_fail(e)
    &&& words == seq![SourceEvent::Failed(e)] || (source.0.can_pause() && words
        == seq![SourceEvent::Nothing, SourceEvent::ClockFailed(e)])
}

/// A source, and the log of what was heard of it.
pub struct Tap {
    source: Held<Box<dyn AudioSource>>,
    log: Ghost<Seq<SourceEvent>>,
}

impl Tap {
    pub closed spec fn source(&self) -> Held<Box<dyn AudioSource>> {
        self.source
    }

    /// What was heard so far, in order.
    pub closed spec fn heard(&self) -> Seq<SourceEvent> {
        self.log@
    }

    pub fn new(source: Held<Box<dyn AudioSource>>) -> (tap: Tap)
        ensures
            tap.source() == source,
            tap.heard() == Seq::<SourceEvent>::empty(),
    {
        Tap { source, log: Ghost(Seq::empty()) }
    }

    /// Asks once for a packet.
    pub fn poll(&mut self) -> (r: MediaResult<Option<AudioChunk>>)
        ensures
            final(self).source() == old(self).source(),
            final(self).heard() == old(self).heard().push(packet_word(r)),
            match r {
                Ok(Some(chunk)) => old(self).source().0.can_give(chunk@),
                Ok(None) => old(self).source().0.can_pause(),
                Err(e) => old(self).source().0.can_fail(e),
            },
    {
        let r: MediaResult<Option<AudioChunk>> = self.source.0.poll();
        self.log = Ghost(self.log@.push(packet_word(r)));
        r
    }

    /// Asks once for the time.
    pub fn srt_now(&mut self) -> (r: MediaResult<Srt100ns>)
        ensures
            final(self).source() == old(self).source(),
            final(self).heard() == old(self).heard().push(clock_word(r)),
            match r {
                Ok(now) => old(self).source().0.can_tell(now.0),
                Err(e) => old(self).source().0.can_fail(e),
            },
    {
        let r: MediaResult<Srt100ns> = self.source.0.srt_now();
        self.log = Ghost(self.log@.push(clock_word(r)));
        r
    }

    /// Stops the source.
    pub fn stop(&mut self)
        ensures
            final(self).source() == old(self).source(),
            final(self).heard() == old(self).heard().push(SourceEvent::Stopped),
    {
        self.source.0.stop();
        self.log = Ghost(self.log@.push(SourceEvent::Stopped));
    }
}

/// The log tells a packet from none and from a failure, and keeps what was said.
pub proof fn law_log_keeps_what_was_said(
    r: MediaResult<Option<AudioChunk>>,
    t: MediaResult<Srt100ns>,
)
    ensures
        r matches Ok(Some(chunk)) ==> packet_word(r) == SourceEvent::Gave(chunk@),
        r matches Ok(None) ==> packet_word(r) is Nothing,
        r matches Err(e) ==> packet_word(r) == SourceEvent::Failed(e),
        t matches Ok(now) ==> clock_word(t) == SourceEvent::Told(now.0),
        t matches Err(e) ==> clock_word(t) == SourceEvent::ClockFailed(e),
{
}

/// A source answers with a packet only where it can give it, and is idle only where it can pause
/// and tell the time; a failure is one that it can have.
pub proof fn law_answers_are_within_the_source(
    source: Held<Box<dyn AudioSource>>,
    answer: SourceAnswer,
    words: Seq<SourceEvent>,
    e: MediaError,
)
    ensures
        can_answer(source, answer) ==> match answer {
            SourceAnswer::Packet(c) => source.0.can_give(c),
            SourceAnswer::Idle(now) => source.0.can_pause() && source.0.can_tell(now),
        },
        words_of_failure(source, words, e) ==> source.0.can_fail(e) && words.len() > 0 && (
        words.last() == SourceEvent::Failed(e) || words.last() == SourceEvent::ClockFailed(e)),
{
}

} // verus!
