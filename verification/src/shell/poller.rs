//! The progress poller: four times a second it looks at the recording and at the interface.

use super::commands::UiCommand;
use crate::engine::{AudioSourceStatus, EngineState, RecordingStatus};
use vstd::prelude::*;

verus! {

/// Milliseconds between two looks.
pub const POLL_PERIOD_MS: u64 = 250;

/// An interface that is not ready by then has most likely failed to load.
pub const READY_DEADLINE_NS: u64 = 10_000_000_000;

/// A command that waits is reported, and again after so long.
pub const STALE_COMMAND_NS: u64 = 5_000_000_000;

/// Sent while a recording runs.
#[derive(Debug)]
pub struct ProgressPayload {
    pub elapsed_ms: i64,
    pub frames_captured: u64,
    pub frames_scheduled: u64,
    pub frames_duplicated: u64,
    pub frames_dropped: u64,
    pub frames_encoded: u64,
    pub queue_degraded: bool,
    pub audio_sources: Vec<AudioSourceStatus>,
}

impl ProgressPayload {
    /// The numbers are those of the status.
    pub open spec fn reports(&self, st: &RecordingStatus) -> bool {
        &&& self.elapsed_ms == st.elapsed_ms
        &&& self.frames_captured == st.frames_captured
        &&& self.frames_scheduled == st.frames_scheduled
        &&& self.frames_duplicated == st.frames_duplicated
        &&& self.frames_dropped == st.frames_dropped_backpressure
        &&& self.frames_encoded == st.frames_encoded
        &&& self.queue_degraded == st.degraded
        &&& self.audio_sources == st.audio_sources
    }
}

/// Sent when the state of a recording has changed.
#[derive(Debug)]
pub struct StatePayload {
    pub state: EngineState,
    pub error_code: Option<String>,
    pub error_message: Option<String>,
}

/// The characters of an optional text.
pub open spec fn text_view(t: Option<String>) -> Option<Seq<char>> {
    match t {
        Some(s) => Some(s@),
        None => None,
    }
}

/// The characters of an optional code.
pub open spec fn code_view(t: Option<&'static str>) -> Option<Seq<char>> {
    match t {
        Some(s) => Some(s@),
        None => None,
    }
}

fn copy_text(t: &Option<String>) -> (r: Option<String>)
    ensures
        text_view(r) == text_view(*t),
{
    match t {
        Some(s) => Some(s.clone()),
        None => None,
    }
}

fn same_optional_text(a: &Option<String>, b: &Option<String>) -> (r: bool)
    ensures
        r == (text_view(*a) == text_view(*b)),
{
    match (a, b) {
        (Some(x), Some(y)) => *x == *y,
        (None, None) => true,
        _ => false,
    }
}

/// What a look at the interface has to say.
#[derive(Debug, Clone, Copy, PartialEq, Eq, Structural)]
pub struct InterfaceReport {
    /// The interface became ready after it had been reported missing.
    pub late: bool,
    /// The interface is missing.
    pub missing: bool,
    /// A command that nobody fetches.
    pub stale: Option<UiCommand>,
}

/// What the poller remembers of the interface.
pub struct InterfaceMemory {
    pub not_ready_warned: bool,
    pub last_pending_warn_ns: Option<u64>,
}

/// What a look at the interface says.
pub open spec fn interface_report(
    m: InterfaceMemory,
    ready: bool,
    pending: Option<UiCommand>,
    now_ns: u64,
) -> InterfaceReport {
    InterfaceReport {
        late: ready && m.not_ready_warned,
        missing: !ready && !m.not_ready_warned && now_ns >= READY_DEADLINE_NS,
        stale: match m.last_pending_warn_ns {
            Some(t) if now_ns - t < STALE_COMMAND_NS => None,
            _ => pending,
        },
    }
}

/// What is remembered after a look at the interface.
pub open spec fn interface_memory(
    m: InterfaceMemory,
    ready: bool,
    pending: Option<UiCommand>,
    now_ns: u64,
) -> InterfaceMemory {
    InterfaceMemory {
        not_ready_warned: if ready {
            false
        } else {
            m.not_ready_warned || now_ns >= READY_DEADLINE_NS
        },
        last_pending_warn_ns: if pending is None {
            None
        } else if interface_report(m, ready, pending, now_ns).stale is Some {
            Some(now_ns)
        } else {
            m.last_pending_warn_ns
        },
    }
}

/// The poller between two looks.
#[derive(Debug)]
pub struct ProgressPoller {
    last_state: Option<EngineState>,
    last_error: Option<String>,
    not_ready_warned: bool,
    last_pending_warn_ns: Option<u64>,
}

impl ProgressPoller {
    /// The state and the error message that were sent last.
    pub closed spec fn sent(&self) -> Option<(EngineState, Option<Seq<char>>)> {
        match self.last_state {
            Some(s) => Some((s, text_view(self.last_error))),
            None => None,
        }
    }

    pub closed spec fn memory(&self) -> InterfaceMemory {
        InterfaceMemory {
            not_ready_warned: self.not_ready_warned,
            last_pending_warn_ns: self.last_pending_warn_ns,
        }
    }

    pub fn new() -> (p: ProgressPoller)
        ensures
            p.sent() is None,
            p.memory() == (InterfaceMemory { not_ready_warned: false, last_pending_warn_ns: None }),
    {
        ProgressPoller {
            last_state: None,
            last_error: None,
            not_ready_warned: false,
            last_pending_warn_ns: None,
        }
    }

    /// Looks at the interface, `now_ns` after the start of the program.
    pub fn watch_interface(&mut self, ready: bool, pending: Option<UiCommand>, now_ns: u64) -> (r:
        InterfaceReport)
        requires
            old(self).memory().last_pending_warn_ns matches Some(t) ==> t <= now_ns,
        ensures
            r == interface_report(old(self).memory(), ready, pending, now_ns),
            final(self).memory() == interface_memory(old(self).memory(), ready, pending, now_ns),
            final(self).sent() == old(self).sent(),
    {
        let late: bool = ready && self.not_ready_warned;
        let missing: bool = !ready && !self.not_ready_warned && now_ns >= READY_DEADLINE_NS;
        if late {
            self.not_ready_warned = false;
        } else if missing {
            self.not_ready_warned = true;
        }
        let stale: Option<UiCommand> = match pending {
            Some(cmd) => {
                let due: bool = match self.last_pending_warn_ns {
                    Some(t) => now_ns - t >= STALE_COMMAND_NS,
                    None => true,
                };
                if due {
                    self.last_pending_warn_ns = Some(now_ns);
                    Some(cmd)
                } else {
                    None
                }
            },
            None => {
                self.last_pending_warn_ns = None;
                None
            },
        };
        InterfaceReport { late, missing, stale }
    }

    /// Looks at the recording. Its progress is sent at every look, its state only where state or
    /// error have changed since they were sent. Without a recording nothing is sent, and the
    /// next one starts afresh.
    pub fn watch_recording(&mut self, status: Option<RecordingStatus>) -> (r: Option<
        (Option<StatePayload>, ProgressPayload),
    >)
        ensures
            final(self).memory() == old(self).memory(),
            match status {
                None => r is None && final(self).sent() is None,
                Some(st) => {
                    let now = Some((st.state, text_view(st.error_message)));
                    &&& final(self).sent() == now
                    &&& r matches Some((changed, progress))
                    &&& progress.reports(&st)
                    &&& changed is Some <==> old(self).sent() != now
                    &&& changed matches Some(p) ==> {
                        &&& p.state == st.state
                        &&& text_view(p.error_code) == code_view(st.error_code)
                        &&& text_view(p.error_message) == text_view(st.error_message)
                    }
                },
            },
    {
        let st: RecordingStatus = match status {
            None => {
                self.last_state = None;
                self.last_error = None;
                return None;
            },
            Some(st) => st,
        };
        let same: bool = match self.last_state {
            Some(s) => s == st.state && same_optional_text(&self.last_error, &st.error_message),
            None => false,
        };
        let changed: Option<StatePayload> = if same {
            None
        } else {
            self.last_state = Some(st.state);
            self.last_error = copy_text(&st.error_message);
            Some(
                StatePayload {
                    state: st.state,
                    error_code: match st.error_code {
                        Some(code) => Some(String::from_str(code)),
                        None => None,
                    },
                    error_message: copy_text(&st.error_message),
                },
            )
        };
        let progress: ProgressPayload = ProgressPayload {
            elapsed_ms: st.elapsed_ms,
            frames_captured: st.frames_captured,
            frames_scheduled: st.frames_scheduled,
            frames_duplicated: st.frames_duplicated,
            frames_dropped: st.frames_dropped_backpressure,
            frames_encoded: st.frames_encoded,
            queue_degraded: st.degraded,
            audio_sources: st.audio_sources,
        };
        Some((changed, progress))
    }
}

/// A missing interface is reported once, until it has been seen.
pub proof fn law_missing_interface_is_reported_once(
    m: InterfaceMemory,
    pending: Option<UiCommand>,
    later_pending: Option<UiCommand>,
    now_ns: u64,
    later_ns: u64,
)
    requires
        interface_report(m, false, pending, now_ns).missing,
    ensures
        !interface_report(
            interface_memory(m, false, pending, now_ns),
            false,
            later_pending,
            later_ns,
        ).missing,
{
}

/// A command that stays is reported at most once in five seconds.
pub proof fn law_stale_command_is_not_repeated_soon(
    m: InterfaceMemory,
    ready: bool,
    still_ready: bool,
    cmd: UiCommand,
    next: UiCommand,
    now_ns: u64,
    later_ns: u64,
)
    requires
        interface_report(m, ready, Some(cmd), now_ns).stale is Some,
        now_ns <= later_ns < now_ns + STALE_COMMAND_NS,
    ensures
        interface_report(
            interface_memory(m, ready, Some(cmd), now_ns),
            still_ready,
            Some(next),
            later_ns,
        ).stale is None,
{
}

/// The progress that is sent is that of the recording; drops of the steady state count, those of
/// the startup do not.
pub proof fn law_progress_is_that_of_the_recording(p: ProgressPayload, st: RecordingStatus)
    requires
        p.reports(&st),
    ensures
        p.elapsed_ms == st.elapsed_ms,
        p.frames_captured == st.frames_captured,
        p.frames_scheduled == st.frames_scheduled,
        p.frames_duplicated == st.frames_duplicated,
        p.frames_dropped == st.frames_dropped_backpressure,
        p.frames_encoded == st.frames_encoded,
        p.queue_degraded == st.degraded,
        p.audio_sources == st.audio_sources,
{
}

/// An interface is reported missing once ten seconds have gone by without it, and late when it
/// comes after that. A command that waits is reported when it is first seen, and again after five
/// seconds.
pub proof fn law_interface_is_waited_for(
    m: InterfaceMemory,
    ready: bool,
    pending: Option<UiCommand>,
    now_ns: u64,
)
    ensures
        interface_report(m, ready, pending, now_ns).missing <==> !ready && !m.not_ready_warned
            && now_ns >= 10_000_000_000,
        interface_report(m, ready, pending, now_ns).late <==> ready && m.not_ready_warned,
        m.last_pending_warn_ns is None ==> interface_report(m, ready, pending, now_ns).stale
            == pending,
        m.last_pending_warn_ns matches Some(t) ==> now_ns >= t + 5_000_000_000 ==> interface_report(
            m,
            ready,
            pending,
            now_ns,
        ).stale == pending,
        m.last_pending_warn_ns matches Some(t) ==> now_ns < t + 5_000_000_000 ==> interface_report(
            m,
            ready,
            pending,
            now_ns,
        ).stale is None,
{
}

/// What was reported is remembered: the missing interface until it comes, the waiting command
/// until it is fetched.
pub proof fn law_reports_are_remembered(
    m: InterfaceMemory,
    ready: bool,
    pending: Option<UiCommand>,
    now_ns: u64,
)
    ensures
        ({
            let next = interface_memory(m, ready, pending, now_ns);
            let report = interface_report(m, ready, pending, now_ns);
            &&& ready ==> !next.not_ready_warned
            &&& !ready ==> (next.not_ready_warned <==> m.not_ready_warned || report.missing)
            &&& pending is None ==> next.last_pending_warn_ns is None
            &&& report.stale is Some ==> next.last_pending_warn_ns == Some(now_ns)
            &&& pending is Some && report.stale is None ==> next.last_pending_warn_ns
                == m.last_pending_warn_ns
        }),
{
}

} // verus!
