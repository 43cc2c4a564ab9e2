//! What an audio source is: an endpoint that yields samples with their system relative time.
//!
//! Two rules hold for every source. Its time stamps are system relative time, converted from the
//! performance counter; a device with a clock of its own would break the synchronisation with
//! the video. And it may run dry: the grid adapter in [`super::mixer`] fills the gap.

use super::{AudioChunk, AudioFormat, ChunkView};
use crate::error::{MediaError, MediaResult};
use crate::time::Srt100ns;
use vstd::prelude::*;

verus! {

/// Direction of an endpoint's data flow.
#[derive(Debug, Clone, Copy, PartialEq, Eq, Structural)]
pub enum AudioDirection {
    /// Speakers or headphones; loopback records what they play.
    Render,
    /// Microphone or line input.
    Capture,
}

/// An available endpoint.
#[derive(Debug)]
pub struct AudioEndpoint {
    pub id: String,
    pub name: String,
    pub direction: AudioDirection,
    pub is_default: bool,
}

/// Which kind of source to record.
#[derive(Debug, Clone, Copy, PartialEq, Eq, Structural)]
pub enum AudioSourceKind {
    /// What the system plays.
    SystemLoopback,
    Microphone,
}

impl Default for AudioSourceKind {
    fn default() -> (k: AudioSourceKind)
        ensures
            k == AudioSourceKind::SystemLoopback,
    {
        AudioSourceKind::SystemLoopback
    }
}

impl AudioSourceKind {
    pub open spec fn flow(self) -> AudioDirection {
        match self {
            AudioSourceKind::SystemLoopback => AudioDirection::Render,
            AudioSourceKind::Microphone => AudioDirection::Capture,
        }
    }

    pub fn direction(self) -> (d: AudioDirection)
        ensures
            d == self.flow(),
    {
        match self {
            AudioSourceKind::SystemLoopback => AudioDirection::Render,
            AudioSourceKind::Microphone => AudioDirection::Capture,
        }
    }

    pub open spec fn label(self) -> Seq<char> {
        match self {
            AudioSourceKind::SystemLoopback => "system-loopback"@,
            AudioSourceKind::Microphone => "microphone"@,
        }
    }

    pub fn as_str(self) -> (s: &'static str)
        ensures
            s@ == self.label(),
    {
        match self {
            AudioSourceKind::SystemLoopback => "system-loopback",
            AudioSourceKind::Microphone => "microphone",
        }
    }
}

/// Which endpoint to open; without an id it is the system default.
#[derive(Debug)]
pub struct EndpointSpec {
    pub direction: AudioDirection,
    pub id: Option<String>,
}

impl EndpointSpec {
    /// The system default endpoint.
    pub fn default_of(direction: AudioDirection) -> (spec: EndpointSpec)
        ensures
            spec.direction == direction,
            spec.id is None,
    {
        EndpointSpec { direction, id: None }
    }

    /// The endpoint with this id.
    pub fn by_id(direction: AudioDirection, id: String) -> (spec: EndpointSpec)
        ensures
            spec.direction == direction,
            spec.id == Some(id),
    {
        EndpointSpec { direction, id: Some(id) }
    }
}

/// An opened audio endpoint.
pub trait AudioSource: Send {
    /// The format that the endpoint was opened with; it does not change while the source is open.
    closed spec fn opened_format(&self) -> AudioFormat {
        arbitrary()
    }

    /// A packet that the endpoint can deliver.
    closed spec fn can_give(&self, packet: ChunkView) -> bool {
        arbitrary()
    }

    /// A time that the endpoint's clock can show.
    closed spec fn can_tell(&self, now: i64) -> bool {
        arbitrary()
    }

    /// The endpoint can have no packet waiting.
    closed spec fn can_pause(&self) -> bool {
        arbitrary()
    }

    /// An error that the endpoint can answer with.
    closed spec fn can_fail(&self, error: MediaError) -> bool {
        arbitrary()
    }

    /// The description of the opened endpoint.
    closed spec fn description(&self) -> Seq<char> {
        arbitrary()
    }

    fn start(spec: &EndpointSpec) -> MediaResult<Self> where Self: Sized;

    fn format(&self) -> (r: AudioFormat)
        ensures
            r == self.opened_format(),
    ;

    /// The next packet, or nothing where none is waiting. Does not block.
    fn poll(&self) -> (r: MediaResult<Option<AudioChunk>>)
        ensures
            match r {
                Ok(Some(chunk)) => self.can_give(chunk@),
                Ok(None) => self.can_pause(),
                Err(e) => self.can_fail(e),
            },
    ;

    /// The current system relative time.
    fn srt_now(&self) -> (r: MediaResult<Srt100ns>)
        ensures
            match r {
                Ok(now) => self.can_tell(now.0),
                Err(e) => self.can_fail(e),
            },
    ;

    /// Stops sampling.
    fn stop(&self);

    /// A description of the opened endpoint for the log.
    fn opened(&self) -> (text: String)
        ensures
            text@ == self.description(),
    ;
}

/// What the system plays is heard on its way out, a microphone on its way in; the two have
/// different names.
pub proof fn law_microphones_capture(kind: AudioSourceKind)
    ensures
        kind.flow() == AudioDirection::Capture <==> kind == AudioSourceKind::Microphone,
        kind.flow() == AudioDirection::Render <==> kind == AudioSourceKind::SystemLoopback,
        kind == AudioSourceKind::Microphone ==> kind.label() == "microphone"@,
        kind == AudioSourceKind::SystemLoopback ==> kind.label() == "system-loopback"@,
{
}

} // verus!
