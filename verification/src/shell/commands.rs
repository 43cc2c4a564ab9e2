//! The commands of the user interface and the state behind them.

use crate::audio::gain::{clamp_gain, gain_within, Gain, ONE_BITS};
use crate::audio::source::AudioSourceKind;
use crate::audio::AudioSourceSpec;
use crate::capture::display::DisplayInfo;
use crate::capture::windows::{boxed, displayed, list_top_level_windows, RawWindow, WindowBox};
use crate::consts::{MAX_RECORDING_SECS, STOP_TOTAL_TIMEOUT_MS};
use crate::convert::Region;
use crate::encoder::HardwarePreference;
use crate::engine::{kept_error_text, ms_of, RecorderOutcome, RecordingConfig};
use crate::error::{MediaError, MediaResult};
use crate::share::Share;
use crate::text::{same_text, trim, trimmed};
use crate::time::quotient_toward_zero;
use std::collections::VecDeque;
use vstd::prelude::*;

verus! {

/// A command for the user interface.
///
/// Commands are kept until the interface fetches them. Sending them as events would lose every
/// one that comes before the page is ready.
#[derive(Debug, Clone, Copy, PartialEq, Eq, Structural)]
pub enum UiCommand {
    Toggle,
    OpenDir,
    Quit,
}

impl UiCommand {
    pub open spec fn label(self) -> Seq<char> {
        match self {
            UiCommand::Toggle => "toggle"@,
            UiCommand::OpenDir => "open-dir"@,
            UiCommand::Quit => "quit"@,
        }
    }

    pub fn as_str(self) -> (s: &'static str)
        ensures
            s@ == self.label(),
    {
        match self {
            UiCommand::Toggle => "toggle",
            UiCommand::OpenDir => "open-dir",
            UiCommand::Quit => "quit",
        }
    }
}

/// How long leaving the program waits for the interface: longer than any stop takes.
pub const QUIT_BUDGET_MS: u64 = STOP_TOTAL_TIMEOUT_MS + 5_000;

/// Where the wait for the interface stands.
#[derive(Debug, Clone, Copy, PartialEq, Eq, Structural)]
pub enum QuitWait {
    Waiting,
    Confirmed,
    TimedOut,
}

/// The meeting point of leaving the program: the interface stops the recording and answers, and
/// only then the process ends. Ending it earlier would leave a file that cannot be played.
#[derive(Debug, Clone, Copy, PartialEq, Eq, Structural)]
pub struct QuitGate {
    done: bool,
    requested: bool,
}

impl Default for QuitGate {
    fn default() -> (g: QuitGate)
        ensures
            !g.is_done(),
            !g.is_requested(),
    {
        QuitGate { done: false, requested: false }
    }
}

impl QuitGate {
    /// The interface has answered.
    pub closed spec fn is_done(&self) -> bool {
        self.done
    }

    /// Somebody has asked to leave.
    pub closed spec fn is_requested(&self) -> bool {
        self.requested
    }

    /// The interface answers. It may do so more than once.
    pub fn signal(&mut self)
        ensures
            final(self).is_done(),
            final(self).is_requested() == old(self).is_requested(),
    {
        self.done = true;
    }

    /// Tells the first request from all later ones; only the first one starts to wait.
    pub fn mark_requested(&mut self) -> (first: bool)
        ensures
            first == !old(self).is_requested(),
            final(self).is_requested(),
            final(self).is_done() == old(self).is_done(),
    {
        let first: bool = !self.requested;
        self.requested = true;
        first
    }

    /// Whether a wait that began `waited_ns` ago is over. An answer counts even where it comes
    /// with the end of the time.
    pub fn wait(&self, waited_ns: u64, timeout_ns: u64) -> (r: QuitWait)
        ensures
            r == (if self.is_done() {
                QuitWait::Confirmed
            } else if waited_ns >= timeout_ns {
                QuitWait::TimedOut
            } else {
                QuitWait::Waiting
            }),
    {
        if self.done {
            QuitWait::Confirmed
        } else if waited_ns >= timeout_ns {
            QuitWait::TimedOut
        } else {
            QuitWait::Waiting
        }
    }
}

/// What a selection on the screen is measured against.
#[derive(Debug)]
pub struct SelectorContext {
    pub display_id: String,
    /// Capture size in physical pixels.
    pub phys_w: u32,
    pub phys_h: u32,
    /// Size of the selection window in logical pixels.
    pub logical_w: u32,
    pub logical_h: u32,
}

/// The state of the program, with a handle `R` of the running recording.
#[derive(Debug)]
pub struct AppState<R> {
    /// The running recording. Stopping takes it out, so that nobody waits for anybody.
    pub recorder: Option<R>,
    /// Present while the selection window is open.
    pub selector: Option<SelectorContext>,
    pub ui_pending: VecDeque<UiCommand>,
    /// The interface listens.
    pub ui_ready: bool,
    pub quit_gate: QuitGate,
}

impl<R> Default for AppState<R> {
    fn default() -> (s: AppState<R>)
        ensures
            s.recorder is None,
            s.selector is None,
            s.ui_pending@ == Seq::<UiCommand>::empty(),
            !s.ui_ready,
            !s.quit_gate.is_done(),
            !s.quit_gate.is_requested(),
    {
        AppState {
            recorder: None,
            selector: None,
            ui_pending: VecDeque::new(),
            ui_ready: false,
            quit_gate: QuitGate::default(),
        }
    }
}

/// A command repeats the one that waits last.
pub open spec fn repeats(queue: Seq<UiCommand>, cmd: UiCommand) -> bool {
    queue.len() > 0 && queue.last() == cmd
}

/// The waiting commands after one more. A repetition of the last one is dropped: an impatient
/// second press of the hot key must not stop the recording that the first one started.
pub open spec fn queued(queue: Seq<UiCommand>, cmd: UiCommand) -> Seq<UiCommand> {
    if repeats(queue, cmd) {
        queue
    } else {
        queue.push(cmd)
    }
}

/// No command waits directly behind an equal one.
pub open spec fn no_repetition(queue: Seq<UiCommand>) -> bool {
    forall|i: int, j: int| 0 <= i && j == i + 1 && j < queue.len() ==> #[trigger] queue[i]
        != #[trigger] queue[j]
}

/// What became of a command.
#[derive(Debug, Clone, Copy, PartialEq, Eq, Structural)]
pub struct Delivery {
    /// The command waits now; otherwise an equal one waits already.
    pub queued: bool,
    /// Tell the interface to come and fetch it. Before the page is ready that would fail.
    pub wake: bool,
}

impl<R> AppState<R> {
    /// Everything but the queue is the same.
    pub open spec fn same_but_queue(&self, other: &AppState<R>) -> bool {
        &&& self.recorder == other.recorder
        &&& self.selector == other.selector
        &&& self.ui_ready == other.ui_ready
        &&& self.quit_gate == other.quit_gate
    }

    /// Lets a command wait for the interface.
    pub fn push_ui_command(&mut self, cmd: UiCommand) -> (r: bool)
        ensures
            r == !repeats(old(self).ui_pending@, cmd),
            final(self).ui_pending@ == queued(old(self).ui_pending@, cmd),
            final(self).same_but_queue(old(self)),
    {
        let n: usize = self.ui_pending.len();
        if n > 0 && self.ui_pending[n - 1] == cmd {
            return false;
        }
        self.ui_pending.push_back(cmd);
        true
    }

    /// Takes the command that waits longest.
    pub fn take_ui_command(&mut self) -> (r: Option<UiCommand>)
        ensures
            r is Some <==> old(self).ui_pending@.len() > 0,
            r matches Some(cmd) ==> old(self).ui_pending@ == seq![cmd] + final(self).ui_pending@,
            r is None ==> final(self).ui_pending@ == old(self).ui_pending@,
            final(self).same_but_queue(old(self)),
    {
        let r: Option<UiCommand> = self.ui_pending.pop_front();
        assert(r is Some ==> old(self).ui_pending@ =~= seq![r->0] + self.ui_pending@);
        r
    }

    /// The command that waits longest. It goes on waiting.
    pub fn peek_ui_command(&self) -> (r: Option<UiCommand>)
        ensures
            r == (if self.ui_pending@.len() > 0 {
                Some(self.ui_pending@[0])
            } else {
                None
            }),
    {
        if self.ui_pending.len() > 0 {
            Some(self.ui_pending[0])
        } else {
            None
        }
    }

    /// The interface listens from now on. Tells whether this is the first time.
    pub fn mark_ui_ready(&mut self) -> (first: bool)
        ensures
            first == !old(self).ui_ready,
            *final(self) == (AppState { ui_ready: true, ..*old(self) }),
    {
        let first: bool = !self.ui_ready;
        self.ui_ready = true;
        first
    }

    pub fn ui_ready(&self) -> (r: bool)
        ensures
            r == self.ui_ready,
    {
        self.ui_ready
    }

    /// Something is being recorded, or still being completed.
    pub fn is_recording(&self) -> (r: bool)
        ensures
            r == (self.recorder is Some),
    {
        self.recorder.is_some()
    }

    /// Hands a command to the interface.
    pub fn deliver(&mut self, cmd: UiCommand) -> (r: Delivery)
        ensures
            r.queued == !repeats(old(self).ui_pending@, cmd),
            r.wake == old(self).ui_ready,
            final(self).ui_pending@ == queued(old(self).ui_pending@, cmd),
            final(self).same_but_queue(old(self)),
    {
        let queued: bool = self.push_ui_command(cmd);
        Delivery { queued, wake: self.ui_ready }
    }

    /// Leaves the program: the interface is asked to stop, and the first request waits for its
    /// answer. Later requests are ignored.
    pub fn begin_quit(&mut self) -> (r: Option<Delivery>)
        ensures
            r is Some <==> !old(self).quit_gate.is_requested(),
            final(self).quit_gate.is_requested(),
            final(self).quit_gate.is_done() == old(self).quit_gate.is_done(),
            final(self).recorder == old(self).recorder,
            final(self).selector == old(self).selector,
            final(self).ui_ready == old(self).ui_ready,
            match r {
                Some(d) => d.queued == !repeats(old(self).ui_pending@, UiCommand::Quit) && d.wake
                    == old(self).ui_ready && final(self).ui_pending@ == queued(
                    old(self).ui_pending@,
                    UiCommand::Quit,
                ),
                None => final(self).ui_pending@ == old(self).ui_pending@,
            },
    {
        if !self.quit_gate.mark_requested() {
            return None;
        }
        Some(self.deliver(UiCommand::Quit))
    }
}

/// Whatever is pushed and taken, no command ever waits directly behind an equal one.
pub proof fn law_no_command_is_repeated(queue: Seq<UiCommand>, cmd: UiCommand)
    requires
        no_repetition(queue),
    ensures
        no_repetition(queued(queue, cmd)),
        queue.len() > 0 ==> no_repetition(queue.drop_first()),
{
    let after = queued(queue, cmd);
    assert forall|i: int, j: int| 0 <= i && j == i + 1 && j < after.len() implies #[trigger] after[i]
        != #[trigger] after[j] by {
        assert(after[i] == queue[i]);
        if j < queue.len() {
            assert(queue[i] != queue[j]);
        }
    }
    if queue.len() > 0 {
        let rest = queue.drop_first();
        assert forall|i: int, j: int| 0 <= i && j == i + 1 && j < rest.len() implies #[trigger] rest[i]
            != #[trigger] rest[j] by {
            assert(rest[i] == queue[i + 1] && rest[j] == queue[j + 1]);
        }
    }
}

/// Something that happens to the queue.
pub enum QueueEvent {
    Push(UiCommand),
    Take,
}

/// A queue with its history: what was let in, and what was taken out.
pub struct QueueRun {
    pub waiting: Seq<UiCommand>,
    pub accepted: Seq<UiCommand>,
    pub taken: Seq<UiCommand>,
}

/// The queue after a row of events, starting empty.
pub open spec fn queue_run(events: Seq<QueueEvent>) -> QueueRun
    decreases events.len(),
{
    if events.len() == 0 {
        QueueRun { waiting: Seq::empty(), accepted: Seq::empty(), taken: Seq::empty() }
    } else {
        let before = queue_run(events.drop_last());
        match events.last() {
            QueueEvent::Push(cmd) => QueueRun {
                waiting: queued(before.waiting, cmd),
                accepted: if repeats(before.waiting, cmd) {
                    before.accepted
                } else {
                    before.accepted.push(cmd)
                },
                taken: before.taken,
            },
            QueueEvent::Take => if before.waiting.len() > 0 {
                QueueRun {
                    waiting: before.waiting.drop_first(),
                    accepted: before.accepted,
                    taken: before.taken.push(before.waiting[0]),
                }
            } else {
                before
            },
        }
    }
}

/// Every command that was let in is taken once and in order, or still waits: none is lost, none
/// is executed twice.
pub proof fn law_commands_are_delivered_once(events: Seq<QueueEvent>)
    ensures
        queue_run(events).accepted == queue_run(events).taken + queue_run(events).waiting,
        no_repetition(queue_run(events).waiting),
    decreases events.len(),
{
    if events.len() > 0 {
        law_commands_are_delivered_once(events.drop_last());
        let before = queue_run(events.drop_last());
        let after = queue_run(events);
        match events.last() {
            QueueEvent::Push(cmd) => {
                law_no_command_is_repeated(before.waiting, cmd);
            },
            QueueEvent::Take => {
                law_no_command_is_repeated(before.waiting, UiCommand::Quit);
                if before.waiting.len() > 0 {
                    assert(before.waiting =~= seq![before.waiting[0]]
                        + before.waiting.drop_first());
                }
            },
        }
        assert(after.accepted =~= after.taken + after.waiting);
    }
}

/// One source as the interface asks for it.
#[derive(Debug)]
pub struct AudioSourceInput {
    pub kind: String,
    pub gain: Gain,
}

/// A request to record.
#[derive(Debug)]
pub struct StartRequest {
    pub display_id: String,
    pub fps: u32,
    /// Blank for the default directory.
    pub output_dir: String,
    pub region: Option<Region>,
    pub prefer_software: bool,
    /// The sources. An empty list is refused; without a list `audio_kind` counts.
    pub audio_sources: Option<Vec<AudioSourceInput>>,
    pub audio_kind: Option<String>,
}

#[derive(Debug, Clone, Copy, PartialEq, Eq, Structural)]
pub struct StartResult {
    pub accepted: bool,
}

/// The kind that a text stands for. What is not known means the sound of the system.
pub open spec fn kind_meant(text: Seq<char>) -> AudioSourceKind {
    if text == "microphone"@ {
        AudioSourceKind::Microphone
    } else {
        AudioSourceKind::SystemLoopback
    }
}

fn kind_of(text: &str) -> (k: AudioSourceKind)
    ensures
        k == kind_meant(text@),
{
    if same_text(text, "microphone") {
        AudioSourceKind::Microphone
    } else {
        AudioSourceKind::SystemLoopback
    }
}

/// The sources that a request asks for.
pub open spec fn requested_sources(request: StartRequest) -> Seq<AudioSourceSpec> {
    match request.audio_sources {
        Some(list) => Seq::new(
            list@.len(),
            |i: int|
                AudioSourceSpec {
                    kind: kind_meant(list@[i].kind@),
                    gain: gain_within(list@[i].gain),
                },
        ),
        None => seq![
            AudioSourceSpec {
                kind: match request.audio_kind {
                    Some(k) => kind_meant(k@),
                    None => AudioSourceKind::SystemLoopback,
                },
                gain: Gain(ONE_BITS),
            },
        ],
    }
}

fn sources_of(request: &StartRequest) -> (r: Vec<AudioSourceSpec>)
    ensures
        r@ == requested_sources(*request),
{
    match &request.audio_sources {
        Some(list) => {
            let mut sources: Vec<AudioSourceSpec> = Vec::new();
            let mut i: usize = 0;
            while i < list.len()
                invariant
                    i <= list.len(),
                    request.audio_sources == Some(*list),
                    sources@ =~= requested_sources(*request).take(i as int),
                decreases list.len() - i,
            {
                let s: &AudioSourceInput = &list[i];
                sources.push(
                    AudioSourceSpec { kind: kind_of(s.kind.as_str()), gain: clamp_gain(s.gain) },
                );
                i = i + 1;
            }
            assert(sources@ =~= requested_sources(*request));
            sources
        },
        None => {
            let kind: AudioSourceKind = match &request.audio_kind {
                Some(k) => kind_of(k.as_str()),
                None => AudioSourceKind::SystemLoopback,
            };
            vec![AudioSourceSpec { kind, gain: Gain(ONE_BITS) }]
        },
    }
}

/// Why a request is refused before anything is opened: something is being recorded, there is no
/// default directory where one is needed, or no source was chosen.
pub open spec fn start_obstacle(
    busy: bool,
    request: StartRequest,
    default_dir: MediaResult<String>,
) -> Option<Seq<char>> {
    if busy {
        Some("已有录制在进行中"@)
    } else {
        match default_dir {
            Err(e) if trimmed(request.output_dir@).len() == 0 => Some(
                "解析默认输出目录失败："@ + kept_error_text(e),
            ),
            _ => match request.audio_sources {
                Some(list) if list@.len() == 0 => Some(
                    "至少选择一路音频来源（系统声音 / 麦克风）——不做\"静音录制\"模糊态"@,
                ),
                _ => None,
            },
        }
    }
}

/// An error as the interface shows it: its code in brackets and its message.
pub fn error_report(e: &MediaError) -> (s: String)
    ensures
        s@ == kept_error_text(*e),
{
    let message: String = e.message();
    String::from_str("[").concat(e.code()).concat("] ").concat(message.as_str())
}

/// Turns a request into a configuration. `default_dir` is used where the request names no
/// directory.
pub fn start_recording<R>(
    state: &AppState<R>,
    request: StartRequest,
    default_dir: MediaResult<String>,
) -> (r: Result<RecordingConfig, String>)
    ensures
        match start_obstacle(state.recorder is Some, request, default_dir) {
            Some(text) => r matches Err(e) && e@ == text,
            None => r matches Ok(cfg) && {
                &&& cfg.display_id == request.display_id
                &&& cfg.output_dir@ == (if trimmed(request.output_dir@).len() == 0 {
                    (default_dir->Ok_0)@
                } else {
                    request.output_dir@
                })
                &&& cfg.fps == request.fps
                &&& cfg.bitrate is None
                &&& cfg.hardware == (if request.prefer_software {
                    HardwarePreference::PreferSoftware
                } else {
                    HardwarePreference::PreferHardware
                })
                &&& cfg.max_duration_secs == MAX_RECORDING_SECS
                &&& cfg.region == request.region
                &&& cfg.audio
                &&& cfg.audio_sources@ == requested_sources(request)
            },
        },
{
    if state.recorder.is_some() {
        return Err(String::from_str("已有录制在进行中"));
    }
    let bare: String = trim(request.output_dir.as_str());
    let blank: bool = bare.as_str().is_empty();
    if blank {
        if let Err(e) = &default_dir {
            let report: String = error_report(e);
            return Err(String::from_str("解析默认输出目录失败：").concat(report.as_str()));
        }
    }
    if let Some(list) = &request.audio_sources {
        if list.len() == 0 {
            return Err(
                String::from_str(
                    "至少选择一路音频来源（系统声音 / 麦克风）——不做\"静音录制\"模糊态",
                ),
            );
        }
    }
    let sources: Vec<AudioSourceSpec> = sources_of(&request);
    let output_dir: String = if blank {
        match default_dir {
            Ok(dir) => dir,
            Err(_) => request.output_dir,
        }
    } else {
        request.output_dir
    };
    let mut cfg: RecordingConfig = RecordingConfig::new(request.display_id, output_dir);
    cfg.fps = request.fps;
    cfg.hardware = if request.prefer_software {
        HardwarePreference::PreferSoftware
    } else {
        HardwarePreference::PreferHardware
    };
    cfg.region = request.region;
    cfg.audio_sources = sources;
    Ok(cfg)
}

/// The recording runs.
pub fn recording_running<R>(state: &mut AppState<R>, recorder: R) -> (r: StartResult)
    ensures
        r.accepted,
        *final(state) == (AppState { recorder: Some(recorder), ..*old(state) }),
{
    state.recorder = Some(recorder);
    StartResult { accepted: true }
}

/// Takes the running recording out, to be completed elsewhere. Afterwards nothing is running.
pub fn stop_recording<R>(state: &mut AppState<R>) -> (r: Result<R, String>)
    ensures
        *final(state) == (AppState { recorder: None, ..*old(state) }),
        match old(state).recorder {
            Some(recorder) => r == Ok::<R, String>(recorder),
            None => r matches Err(text) && text@ == "当前没有录制在进行"@,
        },
{
    match state.recorder.take() {
        Some(recorder) => Ok(recorder),
        None => Err(String::from_str("当前没有录制在进行")),
    }
}

/// Sent when a recording has ended well.
#[derive(Debug)]
pub struct FinishedPayload {
    pub output_path: String,
    pub duration_ms: i64,
    pub frames_encoded: u64,
    pub frames_dropped: u64,
    pub stop_reason: String,
}

pub fn finished_payload(outcome: &RecorderOutcome) -> (p: FinishedPayload)
    ensures
        p.output_path@ == outcome.finalize.path@,
        p.duration_ms == outcome.elapsed_ms,
        p.frames_encoded == outcome.finalize.samples,
        p.frames_dropped == outcome.frames_dropped_backpressure,
        p.stop_reason@ == outcome.stop_reason.label(),
{
    FinishedPayload {
        output_path: outcome.finalize.path.clone(),
        duration_ms: outcome.elapsed_ms,
        frames_encoded: outcome.finalize.samples,
        frames_dropped: outcome.frames_dropped_backpressure,
        stop_reason: String::from_str(outcome.stop_reason.as_str()),
    }
}

/// How far the end of the video lies behind that of the audio, in milliseconds.
pub fn av_difference_ms(outcome: &RecorderOutcome) -> (ms: i64)
    requires
        i64::MIN <= outcome.video_last_pts_100ns - outcome.audio_last_pts_100ns <= i64::MAX,
    ensures
        ms == quotient_toward_zero(
            outcome.video_last_pts_100ns - outcome.audio_last_pts_100ns,
            10_000,
        ),
{
    ms_of(outcome.video_last_pts_100ns - outcome.audio_last_pts_100ns)
}

/// Audio slots of the recording that hold samples of a device.
pub fn real_audio_blocks(outcome: &RecorderOutcome) -> (n: u64)
    ensures
        n == (if outcome.audio_chunks >= outcome.audio_filler_blocks {
            outcome.audio_chunks - outcome.audio_filler_blocks
        } else {
            0
        }),
{
    outcome.audio_chunks.saturating_sub(outcome.audio_filler_blocks)
}

/// The measure of a selection on `display`, whose capture size is `size`. An HDR display cannot
/// be recorded.
pub fn open_region_selector(
    display_id: String,
    display: MediaResult<DisplayInfo>,
    size: MediaResult<(u32, u32)>,
) -> (r: Result<SelectorContext, String>)
    ensures
        match display {
            Err(e) => r matches Err(text) && text@ == kept_error_text(e),
            Ok(info) => if info.hdr {
                r matches Err(text) && text@ == "目标显示器处于 HDR 模式，V0.1 暂不支持"@
            } else {
                match size {
                    Err(e) => r matches Err(text) && text@ == kept_error_text(e),
                    Ok((w, h)) => r == Ok::<SelectorContext, String>(
                        SelectorContext {
                            display_id,
                            phys_w: w,
                            phys_h: h,
                            logical_w: info.width,
                            logical_h: info.height,
                        },
                    ),
                }
            },
        },
{
    match display {
        Err(e) => Err(error_report(&e)),
        Ok(info) => {
            if info.hdr {
                return Err(String::from_str("目标显示器处于 HDR 模式，V0.1 暂不支持"));
            }
            match size {
                Err(e) => Err(error_report(&e)),
                Ok((w, h)) => Ok(
                    SelectorContext {
                        display_id,
                        phys_w: w,
                        phys_h: h,
                        logical_w: info.width,
                        logical_h: info.height,
                    },
                ),
            }
        },
    }
}

/// The windows that the open selection can snap to.
pub fn list_windows<R>(state: &AppState<R>, raw: &Vec<RawWindow>) -> (r: Result<
    Vec<WindowBox>,
    String,
>)
    ensures
        match state.selector {
            None => r matches Err(text) && text@ == "框选会话不存在"@,
            Some(ctx) => r matches Ok(list) && list.len() == displayed(
                raw@,
                ctx.phys_w,
                ctx.phys_h,
            ).len() && forall|i: int|
                0 <= i < list.len() ==> boxed(
                    displayed(raw@, ctx.phys_w, ctx.phys_h)[i],
                    ctx.phys_w,
                    ctx.phys_h,
                    #[trigger] list@[i],
                ),
        },
{
    match &state.selector {
        None => Err(String::from_str("框选会话不存在")),
        Some(ctx) => Ok(list_top_level_windows(raw, ctx.phys_w, ctx.phys_h)),
    }
}

/// Takes the selection: two opposite corners in shares of the display. It ends where a usable
/// rectangle comes of it, and goes on otherwise.
pub fn confirm_region<R>(
    state: &mut AppState<R>,
    nx: Share,
    ny: Share,
    nw: Share,
    nh: Share,
) -> (r: Result<Region, String>)
    ensures
        match old(state).selector {
            None => (r matches Err(text) && text@ == "框选会话不存在（可能已取消）"@)
                && *final(state) == *old(state),
            Some(ctx) => {
                let selected = Region::selected(nx, ny, nw, nh, ctx.phys_w, ctx.phys_h);
                let cut = selected.cut_to(ctx.phys_w, ctx.phys_h);
                if ctx.phys_w > 0 && ctx.phys_h > 0 && cut.width > 0 && cut.height > 0 {
                    &&& r == Ok::<Region, String>(cut)
                    &&& cut.usable_in(ctx.phys_w, ctx.phys_h)
                    &&& *final(state) == (AppState { selector: None, ..*old(state) })
                } else {
                    &&& r matches Err(text) && text@ == "选区过小或完全在画幅外"@
                    &&& *final(state) == *old(state)
                }
            },
        },
{
    let cut: Option<Region> = match &state.selector {
        None => {
            return Err(String::from_str("框选会话不存在（可能已取消）"));
        },
        Some(ctx) => Region::from_normalized(nx, ny, nw, nh, ctx.phys_w, ctx.phys_h),
    };
    match cut {
        Some(region) => {
            state.selector = None;
            Ok(region)
        },
        None => Err(String::from_str("选区过小或完全在画幅外")),
    }
}

/// Ends the selection without a result.
pub fn cancel_region<R>(state: &mut AppState<R>)
    ensures
        *final(state) == (AppState { selector: None, ..*old(state) }),
{
    state.selector = None;
}

/// The result of saving the settings. A hot key that could not be registered does not take the
/// other settings with it.
#[derive(Debug)]
pub struct SettingsApplied {
    pub saved: bool,
    pub hotkey_error: Option<String>,
}

pub fn settings_applied(saved: Result<(), String>, hotkey: Result<(), String>) -> (r: Result<
    SettingsApplied,
    String,
>)
    ensures
        match saved {
            Err(e) => r == Err::<SettingsApplied, String>(e),
            Ok(_) => r matches Ok(a) && a.saved && a.hotkey_error == (match hotkey {
                Err(e) => Some(e),
                Ok(_) => None,
            }),
        },
{
    match saved {
        Err(e) => Err(e),
        Ok(()) => Ok(
            SettingsApplied {
                saved: true,
                hotkey_error: match hotkey {
                    Err(e) => Some(e),
                    Ok(()) => None,
                },
            },
        ),
    }
}

/// A command waits behind all others, unless an equal one waits last.
pub proof fn law_commands_wait_in_line(queue: Seq<UiCommand>, cmd: UiCommand)
    ensures
        queue.len() > 0 && queue.last() == cmd ==> queued(queue, cmd) == queue,
        queue.len() == 0 || queue.last() != cmd ==> {
            &&& queued(queue, cmd).len() == queue.len() + 1
            &&& queued(queue, cmd).last() == cmd
            &&& queued(queue, cmd).drop_last() == queue
        },
{
    assert(queue.push(cmd).drop_last() =~= queue);
}

/// Every source that is asked for is recorded, in the order of the request, with its own kind and
/// its own gain; without a list it is one source, unchanged.
pub proof fn law_sources_are_those_asked_for(request: StartRequest, i: int)
    ensures
        request.audio_sources matches Some(list) ==> {
            &&& requested_sources(request).len() == list@.len()
            &&& 0 <= i < list@.len() ==> requested_sources(request)[i].gain == gain_within(
                list@[i].gain,
            )
            &&& 0 <= i < list@.len() ==> (requested_sources(request)[i].kind
                == AudioSourceKind::Microphone <==> list@[i].kind@ == "microphone"@)
            &&& 0 <= i < list@.len() ==> (requested_sources(request)[i].kind
                == AudioSourceKind::SystemLoopback <==> list@[i].kind@ != "microphone"@)
        },
        request.audio_sources is None ==> {
            &&& requested_sources(request).len() == 1
            &&& requested_sources(request)[0].gain.0 == 0x3f80_0000
            &&& requested_sources(request)[0].kind == AudioSourceKind::Microphone <==> (
            request.audio_kind matches Some(k) && k@ == "microphone"@)
        },
{
}

/// A request is refused while something is recorded, without a directory to write to, and with an
/// empty list of sources; any other request is served.
pub proof fn law_three_things_stand_in_the_way(
    busy: bool,
    request: StartRequest,
    default_dir: MediaResult<String>,
)
    ensures
        start_obstacle(busy, request, default_dir) is Some <==> {
            ||| busy
            ||| trimmed(request.output_dir@).len() == 0 && default_dir is Err
            ||| request.audio_sources matches Some(list) && list@.len() == 0
        },
        busy ==> start_obstacle(busy, request, default_dir) == Some("已有录制在进行中"@),
{
}

} // verus!
