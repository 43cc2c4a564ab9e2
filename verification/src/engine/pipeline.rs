//! The course of a recording: which step comes when, and what a failed step means.
//!
//! Until the encoder runs, a failed step ends the recording. From then on nothing does: whatever
//! the tick loop comes to, the capture is closed, the audio is stopped, the queues are drained and
//! the file is completed, in this order. Only then the result is told.

use super::output::OutputNames;
use super::session::{
    bad_duration_text, check_capture_size, check_display, check_request, check_supported,
    chosen_region, choose_region, conclude, encoder_config, first_frame, request_ok, FirstFrame,
    RegionChoice,
};
use super::{RecordingConfig, StopReason};
use crate::audio::endpoint::{grid_frames, slot_frames_for};
use crate::audio::mixer::{first_mismatch, grid_fits, mismatch_text, one_format};
use crate::audio::mixer::{fresh_grid, grid_of, AudioMixer, GridAdapter};
use crate::audio::source::AudioSource;
use crate::audio::tap::{Held, SourceEvent};
use crate::audio::{AudioFormat, AudioSourceSpec};
use crate::capture::frame::WgcFrame;
use crate::consts::{bitrate, fps_allowed, within_capture_limit, ALLOWED_FPS, GOP_SECONDS};
use crate::consts::{FIRST_FRAME_TIMEOUT_SECS, MAX_CAPTURE_HEIGHT, MAX_CAPTURE_WIDTH};
use crate::convert::{even_below, even_dimensions, Region};
use crate::disk::{check_before_start, estimate, human_text, required_bytes};
use crate::encoder::{EncoderConfig, FinalizeOutcome};
use crate::error::{MediaError, MediaResult};
use crate::time::Srt100ns;
use vstd::prelude::*;

verus! {

/// The step that is due.
#[derive(Debug, Clone, Copy, PartialEq, Eq, Structural)]
pub enum Stage {
    /// Find the display, before the recording gets a thread of its own.
    Target,
    /// Make sure that the output directory can be written to.
    OutputDir,
    /// Ask whether the system supports capture.
    Support,
    /// Start the media runtime.
    Runtime,
    /// Find the display once more; it may have changed.
    Display,
    /// Open the graphics device.
    Device,
    /// Make the capture item and read its size.
    Item,
    /// Start the capture of the chosen region.
    Capture,
    /// Wait for the first frame.
    FirstFrame,
    /// Choose the names of the files.
    Names,
    /// Open the audio sources.
    Audio,
    /// Ask for the free disk space.
    Disk,
    /// Create the encoder.
    Encoder,
    /// Start the threads and run the tick loop.
    Record,
    CloseCapture,
    /// Stop the audio thread and wait for it.
    StopAudio,
    /// Close the queues and wait for the writer.
    JoinWriter,
    Ended,
    /// A step failed; nothing more is due.
    Failed,
}

/// The step after a successful one.
pub open spec fn next_stage(stage: Stage) -> Stage {
    match stage {
        Stage::Target => Stage::OutputDir,
        Stage::OutputDir => Stage::Support,
        Stage::Support => Stage::Runtime,
        Stage::Runtime => Stage::Display,
        Stage::Display => Stage::Device,
        Stage::Device => Stage::Item,
        Stage::Item => Stage::Capture,
        Stage::Capture => Stage::FirstFrame,
        Stage::FirstFrame => Stage::Names,
        Stage::Names => Stage::Audio,
        Stage::Audio => Stage::Disk,
        Stage::Disk => Stage::Encoder,
        Stage::Encoder => Stage::Record,
        Stage::Record => Stage::CloseCapture,
        Stage::CloseCapture => Stage::StopAudio,
        Stage::StopAudio => Stage::JoinWriter,
        Stage::JoinWriter => Stage::Ended,
        Stage::Ended => Stage::Ended,
        Stage::Failed => Stage::Failed,
    }
}

/// Once frames are being recorded the file is completed: the four steps that follow lead to the
/// end, one by one, and none of them can be skipped.
pub proof fn law_recording_is_completed(stage: Stage)
    requires
        stage is Record,
    ensures
        next_stage(stage) is CloseCapture,
        next_stage(next_stage(stage)) is StopAudio,
        next_stage(next_stage(next_stage(stage))) is JoinWriter,
        next_stage(next_stage(next_stage(next_stage(stage)))) is Ended,
{
}

/// A recording on its way.
pub struct Pipeline {
    pub cfg: RecordingConfig,
    pub stage: Stage,
    /// The part of the display that is recorded.
    pub region: RegionChoice,
    /// Even size of the frames.
    pub size: (u32, u32),
    /// Time of the first frame, the common start of video and audio.
    pub t0: Srt100ns,
    pub names: Option<OutputNames>,
    /// How many of the configured sources were tried.
    pub tried: usize,
    pub adapters: Vec<GridAdapter>,
    pub audio: Option<AudioFormat>,
    /// What the tick loop came to.
    pub ticks: Option<MediaResult<StopReason>>,
}

/// A step went well: the next one is due and nothing else has changed.
pub open spec fn went_on(before: Pipeline, after: Pipeline) -> bool {
    after == (Pipeline { stage: next_stage(before.stage), ..before })
}

/// A step failed: nothing more is due.
pub open spec fn gave_up(before: Pipeline, after: Pipeline) -> bool {
    after == (Pipeline { stage: Stage::Failed, ..before })
}

/// The step passes its error on.
pub open spec fn passed_on(
    before: Pipeline,
    after: Pipeline,
    answer: MediaResult<()>,
    r: MediaResult<()>,
) -> bool {
    match answer {
        Ok(_) => r is Ok && went_on(before, after),
        Err(e) => r == Err::<(), MediaError>(e) && gave_up(before, after),
    }
}

/// The answer about a display as a result: an HDR display is refused.
pub open spec fn display_verdict(display: MediaResult<bool>) -> MediaResult<()> {
    match display {
        Err(e) => Err(e),
        Ok(hdr) => if hdr {
            Err(MediaError::HdrDisplayNotSupported)
        } else {
            Ok(())
        },
    }
}

/// What the tick loop came to; a loop that never ran ended on request.
pub open spec fn ticks_result(ticks: Option<MediaResult<StopReason>>) -> MediaResult<StopReason> {
    match ticks {
        Some(r) => r,
        None => Ok(StopReason::UserRequested),
    }
}

/// The mixer over the opened sources. Sources of different formats are not mixed: the recording
/// then goes on without sound, and the reason is handed out for the log.
pub fn assemble_mixer(adapters: Vec<GridAdapter>) -> (r: (AudioMixer, Option<MediaError>))
    requires
        forall|i: int| 0 <= i < adapters.len() ==> (#[trigger] adapters@[i]).wf(),
    ensures
        r.0.wf(),
        one_format(adapters@) ==> r.0.sources() == adapters@ && r.1 is None,
        !one_format(adapters@) ==> {
            &&& r.0.sources().len() == 0
            &&& exists|i: int| #[trigger]
                first_mismatch(adapters@, i) && (r.1 matches Some(MediaError::Internal(text))
                    && text@ == mismatch_text(
                    adapters@[0].grid().format,
                    adapters@[i].grid().format,
                ))
        },
{
    match AudioMixer::new(adapters) {
        Ok((mixer, _)) => (mixer, None),
        Err(e) => (AudioMixer::empty(), Some(e)),
    }
}

impl Pipeline {
    /// Checks a request and begins. Nothing is opened yet.
    pub fn new(cfg: RecordingConfig) -> (r: MediaResult<Pipeline>)
        ensures
            r is Ok <==> request_ok(cfg),
            r matches Ok(p) ==> {
                &&& p.cfg == cfg
                &&& p.stage is Target
                &&& p.region is Full
                &&& p.names is None
                &&& p.tried == 0
                &&& p.adapters@.len() == 0
                &&& p.audio is None
                &&& p.ticks is None
            },
            r matches Err(e) ==> (if !fps_allowed(cfg.fps) {
                e matches MediaError::UnsupportedFrameRate { fps, allowed } && fps == cfg.fps
                    && allowed@ == ALLOWED_FPS@
            } else {
                e matches MediaError::Internal(text) && text@ == bad_duration_text(
                    cfg.max_duration_secs,
                )
            }),
    {
        match check_request(&cfg) {
            Err(e) => Err(e),
            Ok(()) => Ok(
                Pipeline {
                    cfg,
                    stage: Stage::Target,
                    region: RegionChoice::Full,
                    size: (0, 0),
                    t0: Srt100ns(0),
                    names: None,
                    tried: 0,
                    adapters: Vec::new(),
                    audio: None,
                    ticks: None,
                },
            ),
        }
    }

    fn advance(&mut self)
        ensures
            went_on(*old(self), *final(self)),
    {
        self.stage =
        match self.stage {
            Stage::Target => Stage::OutputDir,
            Stage::OutputDir => Stage::Support,
            Stage::Support => Stage::Runtime,
            Stage::Runtime => Stage::Display,
            Stage::Display => Stage::Device,
            Stage::Device => Stage::Item,
            Stage::Item => Stage::Capture,
            Stage::Capture => Stage::FirstFrame,
            Stage::FirstFrame => Stage::Names,
            Stage::Names => Stage::Audio,
            Stage::Audio => Stage::Disk,
            Stage::Disk => Stage::Encoder,
            Stage::Encoder => Stage::Record,
            Stage::Record => Stage::CloseCapture,
            Stage::CloseCapture => Stage::StopAudio,
            Stage::StopAudio => Stage::JoinWriter,
            Stage::JoinWriter => Stage::Ended,
            Stage::Ended => Stage::Ended,
            Stage::Failed => Stage::Failed,
        };
    }

    fn step(&mut self, answer: MediaResult<()>) -> (r: MediaResult<()>)
        ensures
            passed_on(*old(self), *final(self), answer, r),
    {
        match answer {
            Ok(()) => {
                self.advance();
                Ok(())
            },
            Err(e) => {
                self.stage = Stage::Failed;
                Err(e)
            },
        }
    }

    /// The display was looked for, before or after the recording got its thread; whether it is in
    /// HDR mode.
    pub fn display_resolved(&mut self, display: MediaResult<bool>) -> (r: MediaResult<()>)
        requires
            old(self).stage is Target || old(self).stage is Display,
        ensures
            passed_on(*old(self), *final(self), display_verdict(display), r),
    {
        let verdict: MediaResult<()> = match display {
            Err(e) => Err(e),
            Ok(hdr) => check_display(hdr),
        };
        self.step(verdict)
    }

    /// A step that only succeeds or fails was made: the output directory, the runtime, the
    /// device, the capture, or the encoder.
    pub fn done(&mut self, answer: MediaResult<()>) -> (r: MediaResult<()>)
        requires
            old(self).stage is OutputDir || old(self).stage is Runtime || old(self).stage is Device
                || old(self).stage is Capture || old(self).stage is Encoder,
        ensures
            passed_on(*old(self), *final(self), answer, r),
    {
        self.step(answer)
    }

    /// The system told whether it supports capture.
    pub fn support_known(&mut self, supported: bool) -> (r: MediaResult<()>)
        requires
            old(self).stage is Support,
        ensures
            passed_on(
                *old(self),
                *final(self),
                if supported {
                    Ok(())
                } else {
                    Err(MediaError::ScreenCaptureUnsupported)
                },
                r,
            ),
    {
        self.step(check_supported(supported))
    }

    /// The capture item was made. A display beyond the size limit is refused; the requested region
    /// is fitted to the size.
    pub fn item_created(&mut self, item: MediaResult<(u32, u32)>) -> (r: MediaResult<()>)
        requires
            old(self).stage is Item,
        ensures
            match item {
                Err(e) => r == Err::<(), MediaError>(e) && gave_up(*old(self), *final(self)),
                Ok((w, h)) => if within_capture_limit(w, h) {
                    &&& r is Ok
                    &&& *final(self) == (Pipeline {
                        stage: Stage::Capture,
                        region: chosen_region(old(self).cfg.region, w, h),
                        ..*old(self)
                    })
                } else {
                    &&& r == Err::<(), MediaError>(
                        MediaError::ResolutionExceedsLimit {
                            width: w,
                            height: h,
                            max_width: MAX_CAPTURE_WIDTH,
                            max_height: MAX_CAPTURE_HEIGHT,
                        },
                    )
                    &&& gave_up(*old(self), *final(self))
                },
            },
    {
        match item {
            Err(e) => self.step(Err(e)),
            Ok((w, h)) => match check_capture_size(w, h) {
                Err(e) => self.step(Err(e)),
                Ok(()) => {
                    self.region = choose_region(self.cfg.region, w, h);
                    self.stage = Stage::Capture;
                    Ok(())
                },
            },
        }
    }

    /// One look for the first frame, `waited_ns` after the start of the capture: it is handed
    /// out, or there is none yet, or the recording fails and the capture has to be closed.
    pub fn looked_for_frame(
        &mut self,
        fatal: Option<MediaError>,
        frame: Option<WgcFrame>,
        waited_ns: u64,
    ) -> (r: MediaResult<Option<WgcFrame>>)
        requires
            old(self).stage is FirstFrame,
        ensures
            match (fatal, frame) {
                (Some(e), _) => r == Err::<Option<WgcFrame>, MediaError>(e) && gave_up(
                    *old(self),
                    *final(self),
                ),
                (None, Some(f)) => {
                    &&& r == Ok::<Option<WgcFrame>, MediaError>(Some(f))
                    &&& *final(self) == (Pipeline {
                        stage: Stage::Names,
                        size: (even_below(f.nv12.width), even_below(f.nv12.height)),
                        t0: f.srt,
                        ..*old(self)
                    })
                },
                (None, None) => if waited_ns > FIRST_FRAME_TIMEOUT_SECS * 1_000_000_000 {
                    &&& r == Err::<Option<WgcFrame>, MediaError>(
                        MediaError::CaptureNoFrames(FIRST_FRAME_TIMEOUT_SECS),
                    )
                    &&& gave_up(*old(self), *final(self))
                } else {
                    &&& r == Ok::<Option<WgcFrame>, MediaError>(None)
                    &&& *final(self) == *old(self)
                },
            },
    {
        match first_frame(fatal, frame, waited_ns) {
            FirstFrame::Failed(e) => {
                self.stage = Stage::Failed;
                Err(e)
            },
            FirstFrame::Wait => Ok(None),
            FirstFrame::Got(f) => {
                self.size = even_dimensions(f.nv12.width, f.nv12.height);
                self.t0 = f.srt;
                self.stage = Stage::Names;
                Ok(Some(f))
            },
        }
    }

    /// The files got their names.
    pub fn names_chosen(&mut self, names: MediaResult<OutputNames>) -> (r: MediaResult<()>)
        requires
            old(self).stage is Names,
        ensures
            match names {
                Err(e) => r == Err::<(), MediaError>(e) && gave_up(*old(self), *final(self)),
                Ok(n) => {
                    &&& r is Ok
                    &&& *final(self) == (Pipeline {
                        stage: Stage::Audio,
                        names: Some(n),
                        ..*old(self)
                    })
                },
            },
    {
        match names {
            Err(e) => self.step(Err(e)),
            Ok(n) => {
                self.names = Some(n);
                self.stage = Stage::Audio;
                Ok(())
            },
        }
    }

    /// The source to open next; none once all were tried, or where no sound is wanted.
    pub open spec fn source_due(&self) -> Option<AudioSourceSpec> {
        if self.cfg.audio && self.tried < self.cfg.audio_sources@.len() {
            Some(self.cfg.audio_sources@[self.tried as int])
        } else {
            None
        }
    }

    pub fn next_source(&self) -> (r: Option<AudioSourceSpec>)
        ensures
            r == self.source_due(),
    {
        if self.cfg.audio && self.tried < self.cfg.audio_sources.len() {
            Some(self.cfg.audio_sources[self.tried])
        } else {
            None
        }
    }

    /// All opened sources are in order.
    pub open spec fn adapters_ok(&self) -> bool {
        forall|i: int| 0 <= i < self.adapters@.len() ==> (#[trigger] self.adapters@[i]).wf()
    }

    /// The source that was due is open. It gets slots of the grid's length at its own sample rate.
    pub fn source_opened(&mut self, source: Held<Box<dyn AudioSource>>)
        requires
            old(self).stage is Audio,
            old(self).source_due() is Some,
            old(self).adapters_ok(),
            grid_fits(
                source.0.opened_format(),
                grid_frames(source.0.opened_format().sample_rate as int) as usize,
            ),
        ensures
            *final(self) == (Pipeline {
                tried: (old(self).tried + 1) as usize,
                adapters: final(self).adapters,
                ..*old(self)
            }),
            final(self).adapters_ok(),
            final(self).adapters@.len() == old(self).adapters@.len() + 1,
            final(self).adapters@.drop_last() == old(self).adapters@,
            final(self).adapters@.last().identity() == (
                old(self).source_due()->0.kind,
                source.0.description(),
            ),
            final(self).adapters@.last().source() == source,
            final(self).adapters@.last().heard() == Seq::<SourceEvent>::empty(),
            final(self).adapters@.last().state() == fresh_grid(),
            final(self).adapters@.last().grid() == grid_of(
                source.0.opened_format(),
                old(self).source_due()->0.gain,
                grid_frames(source.0.opened_format().sample_rate as int) as usize,
            ),
    {
        let count: usize = self.cfg.audio_sources.len();
        assert(self.tried < count);
        let wanted: AudioSourceSpec = self.cfg.audio_sources[self.tried];
        self.tried = self.tried + 1;
        let format: AudioFormat = source.0.format();
        let slot_frames: usize = slot_frames_for(format.sample_rate);
        self.adapters.push(GridAdapter::holding(wanted.kind, source, wanted.gain, slot_frames));
        assert(self.adapters@.drop_last() =~= old(self).adapters@);
    }

    /// The source that was due could not be opened. The recording goes on without it.
    pub fn source_missing(&mut self)
        requires
            old(self).stage is Audio,
            old(self).source_due() is Some,
        ensures
            *final(self) == (Pipeline { tried: (old(self).tried + 1) as usize, ..*old(self) }),
    {
        let count: usize = self.cfg.audio_sources.len();
        assert(self.tried < count);
        self.tried = self.tried + 1;
    }

    /// All sources were tried: their mixer, and why they are not mixed where that is so. Without
    /// a source the recording has no audio track.
    pub fn audio_ready(&mut self) -> (r: (AudioMixer, Option<MediaError>))
        requires
            old(self).stage is Audio,
            old(self).source_due() is None,
            old(self).adapters_ok(),
        ensures
            r.0.wf(),
            r.0.sources() == (if one_format(old(self).adapters@) {
                old(self).adapters@
            } else {
                Seq::empty()
            }),
            r.1 is None <==> one_format(old(self).adapters@),
            r.1 is Some ==> exists|i: int| #[trigger]
                first_mismatch(old(self).adapters@, i) && (r.1 matches Some(
                    MediaError::Internal(text),
                ) && text@ == mismatch_text(
                    old(self).adapters@[0].grid().format,
                    old(self).adapters@[i].grid().format,
                )),
            final(self).adapters@ == Seq::<GridAdapter>::empty(),
            *final(self) == (Pipeline {
                stage: Stage::Disk,
                adapters: final(self).adapters,
                audio: r.0.mix_format(),
                ..*old(self)
            }),
    {
        let mut adapters: Vec<GridAdapter> = Vec::new();
        adapters.append(&mut self.adapters);
        assert(adapters@ =~= old(self).adapters@);
        let (mixer, why): (AudioMixer, Option<MediaError>) = assemble_mixer(adapters);
        assert(mixer.sources().len() == 0 ==> mixer.sources() =~= Seq::empty());
        self.audio = mixer.format();
        self.stage = Stage::Disk;
        (mixer, why)
    }

    /// The configuration of the encoder.
    pub fn encoder_settings(&self, partial_path: String, final_path: String) -> (e: EncoderConfig)
        requires
            self.size.0 % 2 == 0,
            self.size.1 % 2 == 0,
            self.size.0 * self.size.1 * self.cfg.fps <= u64::MAX,
        ensures
            e.width == self.size.0,
            e.height == self.size.1,
            e.fps == self.cfg.fps,
            e.bitrate == (match self.cfg.bitrate {
                Some(b) => b as int,
                None => bitrate(self.size.0 as int, self.size.1 as int, self.cfg.fps as int),
            }),
            e.gop_seconds == GOP_SECONDS,
            e.hardware == self.cfg.hardware,
            e.partial_path == partial_path,
            e.final_path == final_path,
            e.audio == self.audio,
    {
        encoder_config(&self.cfg, self.size.0, self.size.1, partial_path, final_path, self.audio)
    }

    /// The free disk space was asked for: it has to cover a recording of full length at this bit
    /// rate.
    pub fn disk_known(&mut self, free: MediaResult<u64>, bitrate_bps: u32) -> (r: MediaResult<u64>)
        requires
            old(self).stage is Disk,
        ensures
            ({
                let required = estimate(bitrate_bps as int, old(self).cfg.max_duration_secs as int);
                match free {
                    Err(e) => r == Err::<u64, MediaError>(e) && gave_up(*old(self), *final(self)),
                    Ok(bytes) => if bytes >= required {
                        r == Ok::<u64, MediaError>(bytes) && went_on(*old(self), *final(self))
                    } else {
                        &&& r matches Err(MediaError::InsufficientDiskSpace {
                            free: f,
                            required: q,
                            free_human,
                            required_human,
                        }) && f == bytes && q == required && free_human@ == human_text(bytes)
                            && required_human@ == human_text(q)
                        &&& gave_up(*old(self), *final(self))
                    },
                }
            }),
    {
        let required: u64 = required_bytes(bitrate_bps, self.cfg.max_duration_secs);
        match check_before_start(free, required) {
            Ok(bytes) => {
                self.advance();
                Ok(bytes)
            },
            Err(e) => {
                self.stage = Stage::Failed;
                Err(e)
            },
        }
    }

    /// The tick loop is over, well or not. Its result is kept until the file is complete.
    pub fn ticks_ended(&mut self, ticks: MediaResult<StopReason>)
        requires
            old(self).stage is Record,
        ensures
            *final(self) == (Pipeline {
                stage: Stage::CloseCapture,
                ticks: Some(ticks),
                ..*old(self)
            }),
    {
        self.ticks = Some(ticks);
        self.stage = Stage::CloseCapture;
    }

    /// The capture is closed.
    pub fn capture_closed(&mut self)
        requires
            old(self).stage is CloseCapture,
        ensures
            went_on(*old(self), *final(self)),
    {
        self.advance();
    }

    /// The audio thread was waited for. One that does not end within its time does not keep the
    /// video from being completed.
    pub fn audio_stopped(&mut self)
        requires
            old(self).stage is StopAudio,
        ensures
            went_on(*old(self), *final(self)),
    {
        self.advance();
    }

    /// The writer was waited for; the recording is over. An error of the tick loop is nearest to
    /// the cause and comes before those of the completion.
    pub fn writer_joined(&mut self, written: Result<MediaResult<FinalizeOutcome>, MediaError>) -> (r:
        MediaResult<(StopReason, FinalizeOutcome)>)
        requires
            old(self).stage is JoinWriter,
        ensures
            *final(self) == (Pipeline { stage: Stage::Ended, ticks: None, ..*old(self) }),
            match (ticks_result(old(self).ticks), written) {
                (Err(e), _) => r == Err::<(StopReason, FinalizeOutcome), MediaError>(e),
                (Ok(_), Err(e)) => r == Err::<(StopReason, FinalizeOutcome), MediaError>(e),
                (Ok(_), Ok(Err(e))) => r == Err::<(StopReason, FinalizeOutcome), MediaError>(e),
                (Ok(reason), Ok(Ok(file))) => r == Ok::<(StopReason, FinalizeOutcome), MediaError>(
                    (reason, file),
                ),
            },
    {
        self.stage = Stage::Ended;
        let ticks: MediaResult<StopReason> = match self.ticks.take() {
            Some(ticks) => ticks,
            None => Ok(StopReason::UserRequested),
        };
        conclude(ticks, written)
    }
}

/// The steps of the preparation come in a fixed order: what can be refused without opening
/// anything is asked first, the frame is there before the files get their names, and the disk is
/// asked before the encoder is made.
pub proof fn law_preparation_keeps_its_order()
    ensures
        next_stage(Stage::Target) is OutputDir,
        next_stage(Stage::OutputDir) is Support,
        next_stage(Stage::Support) is Runtime,
        next_stage(Stage::Runtime) is Display,
        next_stage(Stage::Display) is Device,
        next_stage(Stage::Device) is Item,
        next_stage(Stage::Item) is Capture,
        next_stage(Stage::Capture) is FirstFrame,
        next_stage(Stage::FirstFrame) is Names,
        next_stage(Stage::Names) is Audio,
        next_stage(Stage::Audio) is Disk,
        next_stage(Stage::Disk) is Encoder,
        next_stage(Stage::Encoder) is Record,
        next_stage(Stage::Ended) is Ended,
        next_stage(Stage::Failed) is Failed,
{
}

/// A step that goes well leads on and one that fails ends the recording; neither changes what is
/// to be recorded.
pub proof fn law_steps_keep_the_request(
    before: Pipeline,
    after: Pipeline,
    answer: MediaResult<()>,
    r: MediaResult<()>,
)
    requires
        passed_on(before, after, answer, r),
    ensures
        answer is Ok <==> r is Ok,
        answer matches Err(e) ==> r == Err::<(), MediaError>(e) && after.stage is Failed,
        answer is Ok ==> after.stage == next_stage(before.stage),
        after.cfg == before.cfg,
        after.region == before.region,
        after.size == before.size,
        after.t0 == before.t0,
        after.names == before.names,
        after.audio == before.audio,
        after.adapters == before.adapters,
        after.tried == before.tried,
        after.ticks == before.ticks,
{
}

/// A display is refused where it could not be found, with that error, and where it is in HDR mode.
pub proof fn law_hdr_displays_are_refused(display: MediaResult<bool>)
    ensures
        display_verdict(display) is Ok <==> display == Ok::<bool, MediaError>(false),
        display == Ok::<bool, MediaError>(true) ==> (display_verdict(display) matches Err(e)
            && e is HdrDisplayNotSupported),
        display matches Err(e) ==> display_verdict(display) == Err::<(), MediaError>(e),
{
}

/// The tick loop's own result counts; where it did not run the recording ended on request.
pub proof fn law_loops_that_never_ran_ended_on_request(ticks: Option<MediaResult<StopReason>>)
    ensures
        ticks matches Some(r) ==> ticks_result(ticks) == r,
        ticks is None ==> ticks_result(ticks) == Ok::<StopReason, MediaError>(
            StopReason::UserRequested,
        ),
{
}

/// The configured sources are opened one by one, in their order, and none where no sound is
/// wanted.
pub proof fn law_sources_are_tried_in_order(p: Pipeline)
    ensures
        !p.cfg.audio ==> p.source_due() is None,
        p.cfg.audio ==> (p.source_due() is Some <==> p.tried < p.cfg.audio_sources@.len()),
        p.source_due() matches Some(s) ==> s == p.cfg.audio_sources@[p.tried as int],
{
}

} // verus!
