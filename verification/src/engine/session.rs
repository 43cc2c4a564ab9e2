//! The decisions of a recording from its start to its end.

use super::{RecordingConfig, StopReason};
use crate::audio::AudioFormat;
use crate::capture::frame::WgcFrame;
use crate::consts::{
    bitrate, default_bitrate, fps_allowed, is_allowed_fps, within_capture_limit, ALLOWED_FPS,
    FIRST_FRAME_TIMEOUT_SECS, GOP_SECONDS, MAX_CAPTURE_HEIGHT, MAX_CAPTURE_WIDTH,
    MAX_RECORDING_SECS, STOP_JOIN_TIMEOUT_MS,
};
use crate::convert::{even_below, even_dimensions, Region};
use crate::encoder::{ConfigureOutcome, EncoderConfig, FinalizeOutcome};
use crate::error::{internal, MediaError, MediaResult, StopPhase};
use crate::text::{decimal, push_decimal};
use vstd::prelude::*;

verus! {

/// The message about a length limit outside the accepted range.
pub open spec fn bad_duration_text(secs: u64) -> Seq<char> {
    "非法时长上限："@ + decimal(secs as nat) + " 秒（允许范围 1–"@ + decimal(MAX_RECORDING_SECS as nat)
        + " 秒）"@
}

/// A request can be served: an accepted frame rate, and a length between one second and the hard
/// limit.
pub open spec fn request_ok(cfg: RecordingConfig) -> bool {
    fps_allowed(cfg.fps) && 0 < cfg.max_duration_secs <= MAX_RECORDING_SECS
}

/// Checks a request before anything is opened. The frame rate comes first.
pub fn check_request(cfg: &RecordingConfig) -> (r: MediaResult<()>)
    ensures
        r is Ok <==> request_ok(*cfg),
        r matches Err(e) ==> (if !fps_allowed(cfg.fps) {
            e matches MediaError::UnsupportedFrameRate { fps, allowed } && fps == cfg.fps
                && allowed@ == ALLOWED_FPS@
        } else {
            e matches MediaError::Internal(text) && text@ == bad_duration_text(
                cfg.max_duration_secs,
            )
        }),
{
    if !is_allowed_fps(cfg.fps) {
        return Err(
            MediaError::UnsupportedFrameRate { fps: cfg.fps, allowed: ALLOWED_FPS.as_slice() },
        );
    }
    if cfg.max_duration_secs == 0 || cfg.max_duration_secs > MAX_RECORDING_SECS {
        let mut text: String = String::from_str("非法时长上限：");
        push_decimal(&mut text, cfg.max_duration_secs);
        text.append(" 秒（允许范围 1–");
        push_decimal(&mut text, MAX_RECORDING_SECS);
        text.append(" 秒）");
        return Err(MediaError::Internal(text));
    }
    Ok(())
}

/// The system has to support capture.
pub fn check_supported(supported: bool) -> (r: MediaResult<()>)
    ensures
        r is Ok <==> supported,
        r matches Err(e) ==> e is ScreenCaptureUnsupported,
{
    if supported {
        Ok(())
    } else {
        Err(MediaError::ScreenCaptureUnsupported)
    }
}

/// A display in HDR mode is not recorded.
pub fn check_display(hdr: bool) -> (r: MediaResult<()>)
    ensures
        r is Ok <==> !hdr,
        r matches Err(e) ==> e is HdrDisplayNotSupported,
{
    if hdr {
        Err(MediaError::HdrDisplayNotSupported)
    } else {
        Ok(())
    }
}

/// A display beyond the size limit is refused; frames are never scaled.
pub fn check_capture_size(width: u32, height: u32) -> (r: MediaResult<()>)
    ensures
        r is Ok <==> within_capture_limit(width, height),
        r matches Err(e) ==> e == (MediaError::ResolutionExceedsLimit {
            width,
            height,
            max_width: MAX_CAPTURE_WIDTH,
            max_height: MAX_CAPTURE_HEIGHT,
        }),
{
    if width > MAX_CAPTURE_WIDTH || height > MAX_CAPTURE_HEIGHT {
        return Err(
            MediaError::ResolutionExceedsLimit {
                width,
                height,
                max_width: MAX_CAPTURE_WIDTH,
                max_height: MAX_CAPTURE_HEIGHT,
            },
        );
    }
    Ok(())
}

/// Which part of the display is recorded.
#[derive(Debug, Clone, Copy, PartialEq, Eq, Structural)]
pub enum RegionChoice {
    /// All of it, as asked.
    Full,
    /// This part of it.
    Part(Region),
    /// All of it, because the requested part lies outside.
    FallbackToFull,
}

pub open spec fn chosen_region(requested: Option<Region>, width: u32, height: u32) -> RegionChoice {
    match requested {
        Some(r) if r != (Region { x: 0, y: 0, width, height }) => if width > 0 && height > 0
            && r.cut_to(width, height).width > 0 && r.cut_to(width, height).height > 0 {
            RegionChoice::Part(r.cut_to(width, height))
        } else {
            RegionChoice::FallbackToFull
        },
        _ => RegionChoice::Full,
    }
}

/// Fits a requested region to the display.
pub fn choose_region(requested: Option<Region>, width: u32, height: u32) -> (c: RegionChoice)
    ensures
        c == chosen_region(requested, width, height),
        c matches RegionChoice::Part(r) ==> r.usable_in(width, height),
{
    match requested {
        Some(r) => {
            if r.is_full_frame(width, height) {
                RegionChoice::Full
            } else {
                match r.clamp_to(width, height) {
                    Some(cut) => RegionChoice::Part(cut),
                    None => RegionChoice::FallbackToFull,
                }
            }
        },
        None => RegionChoice::Full,
    }
}

/// Pause in milliseconds while the first frame is awaited.
pub const FIRST_FRAME_PAUSE_MS: u64 = 5;

/// What the wait for the first frame comes to.
pub enum FirstFrame {
    Got(WgcFrame),
    Failed(MediaError),
    /// Pause and look again.
    Wait,
}

/// One look for the first frame: a broken capture fails, a frame ends the wait, and so does the
/// time limit.
pub fn first_frame(fatal: Option<MediaError>, frame: Option<WgcFrame>, waited_ns: u64) -> (r:
    FirstFrame)
    ensures
        r == (match (fatal, frame) {
            (Some(e), _) => FirstFrame::Failed(e),
            (None, Some(f)) => FirstFrame::Got(f),
            (None, None) => if waited_ns > FIRST_FRAME_TIMEOUT_SECS * 1_000_000_000 {
                FirstFrame::Failed(MediaError::CaptureNoFrames(FIRST_FRAME_TIMEOUT_SECS))
            } else {
                FirstFrame::Wait
            },
        }),
{
    if let Some(e) = fatal {
        return FirstFrame::Failed(e);
    }
    if let Some(f) = frame {
        return FirstFrame::Got(f);
    }
    if waited_ns > FIRST_FRAME_TIMEOUT_SECS * 1_000_000_000 {
        return FirstFrame::Failed(MediaError::CaptureNoFrames(FIRST_FRAME_TIMEOUT_SECS));
    }
    FirstFrame::Wait
}

/// The configuration of the encoder for frames of this size: an even size, the requested bit rate
/// or the automatic one, and key frames at a fixed distance.
pub fn encoder_config(
    cfg: &RecordingConfig,
    width: u32,
    height: u32,
    partial_path: String,
    final_path: String,
    audio: Option<AudioFormat>,
) -> (e: EncoderConfig)
    requires
        even_below(width) * even_below(height) * cfg.fps <= u64::MAX,
    ensures
        e.width == even_below(width),
        e.height == even_below(height),
        e.fps == cfg.fps,
        e.bitrate == (match cfg.bitrate {
            Some(b) => b as int,
            None => bitrate(
                even_below(width) as int,
                even_below(height) as int,
                cfg.fps as int,
            ),
        }),
        e.gop_seconds == GOP_SECONDS,
        e.hardware == cfg.hardware,
        e.partial_path == partial_path,
        e.final_path == final_path,
        e.audio == audio,
{
    let (w, h): (u32, u32) = even_dimensions(width, height);
    EncoderConfig {
        width: w,
        height: h,
        fps: cfg.fps,
        bitrate: match cfg.bitrate {
            Some(b) => b,
            None => default_bitrate(w, h, cfg.fps),
        },
        gop_seconds: GOP_SECONDS,
        hardware: cfg.hardware,
        partial_path,
        final_path,
        audio,
    }
}

/// What is reported where the encoder left no configuration.
pub fn unknown_configuration(e: &EncoderConfig) -> (c: ConfigureOutcome)
    ensures
        c.width == e.width,
        c.height == e.height,
        c.fps == e.fps,
        c.bitrate == e.bitrate,
        c.profile@ == "?"@,
        !c.hardware_requested,
        !c.hardware_mft_found,
        !c.encoder_params_applied,
        c.notes@.len() == 0,
{
    ConfigureOutcome {
        width: e.width,
        height: e.height,
        fps: e.fps,
        bitrate: e.bitrate,
        profile: String::from_str("?"),
        hardware_requested: false,
        hardware_mft_found: false,
        encoder_params_applied: false,
        notes: Vec::new(),
    }
}

/// How many nanoseconds to wait for a thread, given what is left of the stop budget. Nothing where the budget
/// is used up: the thread is then left behind.
pub fn join_budget(remaining_ns: u64) -> (r: Option<u64>)
    ensures
        r is None <==> remaining_ns == 0,
        r matches Some(ns) ==> ns == (if remaining_ns < STOP_JOIN_TIMEOUT_MS * 1_000_000 {
            remaining_ns as int
        } else {
            STOP_JOIN_TIMEOUT_MS * 1_000_000
        }),
{
    if remaining_ns == 0 {
        None
    } else if remaining_ns < STOP_JOIN_TIMEOUT_MS * 1_000_000 {
        Some(remaining_ns)
    } else {
        Some(STOP_JOIN_TIMEOUT_MS * 1_000_000)
    }
}

/// What became of a thread that was waited for.
pub enum Joined<T> {
    Ended(T),
    Panicked,
    /// It did not end within the budget, or could not be waited for.
    TimedOut,
}

pub open spec fn phase_name(phase: StopPhase) -> Seq<char> {
    match phase {
        StopPhase::Drain => "Drain"@,
        StopPhase::Flush => "Flush"@,
        StopPhase::Finalize => "Finalize"@,
        StopPhase::Release => "Release"@,
        StopPhase::AudioJoin => "AudioJoin"@,
        StopPhase::EncoderJoin => "EncoderJoin"@,
    }
}

/// The result of waiting for a thread.
pub fn join_result<T>(joined: Joined<T>, phase: StopPhase) -> (r: Result<T, MediaError>)
    ensures
        match joined {
            Joined::Ended(v) => r == Ok::<T, MediaError>(v),
            Joined::Panicked => r matches Err(MediaError::Internal(text)) && text@ == phase_name(
                phase,
            ) + " 线程 panic"@,
            Joined::TimedOut => r == Err::<T, MediaError>(MediaError::StopTimeout { phase }),
        },
{
    match joined {
        Joined::Ended(v) => Ok(v),
        Joined::Panicked => {
            let name: &'static str = match phase {
                StopPhase::Drain => "Drain",
                StopPhase::Flush => "Flush",
                StopPhase::Finalize => "Finalize",
                StopPhase::Release => "Release",
                StopPhase::AudioJoin => "AudioJoin",
                StopPhase::EncoderJoin => "EncoderJoin",
            };
            Err(MediaError::Internal(String::from_str(name).concat(" 线程 panic")))
        },
        Joined::TimedOut => Err(MediaError::StopTimeout { phase }),
    }
}

/// The end of a recording. The file is always completed first. An error of the tick loop is
/// nearest to the cause and wins over errors of the completion.
pub fn conclude(
    tick: MediaResult<StopReason>,
    written: Result<MediaResult<FinalizeOutcome>, MediaError>,
) -> (r: MediaResult<(StopReason, FinalizeOutcome)>)
    ensures
        match (tick, written) {
            (Err(e), _) => r == Err::<(StopReason, FinalizeOutcome), MediaError>(e),
            (Ok(_), Err(e)) => r == Err::<(StopReason, FinalizeOutcome), MediaError>(e),
            (Ok(_), Ok(Err(e))) => r == Err::<(StopReason, FinalizeOutcome), MediaError>(e),
            (Ok(reason), Ok(Ok(file))) => r == Ok::<(StopReason, FinalizeOutcome), MediaError>(
                (reason, file),
            ),
        },
{
    match tick {
        Err(e) => Err(e),
        Ok(reason) => match written {
            Err(e) => Err(e),
            Ok(Err(e)) => Err(e),
            Ok(Ok(file)) => Ok((reason, file)),
        },
    }
}

/// The result of a stop request, from what became of the recording's thread; none where there is
/// no thread.
pub fn stop_result<T>(joined: Option<Joined<MediaResult<T>>>) -> (r: MediaResult<T>)
    ensures
        match joined {
            Some(Joined::Ended(v)) => r == v,
            Some(_) => r matches Err(MediaError::Internal(text)) && text@ == "媒体线程 panic"@,
            None => r matches Err(MediaError::Internal(text)) && text@ == "媒体线程句柄缺失"@,
        },
{
    match joined {
        Some(Joined::Ended(v)) => v,
        Some(_) => Err(internal("媒体线程 panic")),
        None => Err(internal("媒体线程句柄缺失")),
    }
}

/// A recording that starts is one whose size and region can be encoded: the chosen part lies
/// within the display and has an even size.
pub proof fn law_chosen_region_is_usable(requested: Option<Region>, width: u32, height: u32)
    ensures
        chosen_region(requested, width, height) matches RegionChoice::Part(r) ==> r.usable_in(
            width,
            height,
        ),
{
}

/// A request is served at 30, 60 or 90 frames per second, for a second up to two hours.
pub proof fn law_requests_have_a_rate_and_a_length(cfg: RecordingConfig)
    ensures
        request_ok(cfg) <==> {
            &&& cfg.fps == 30 || cfg.fps == 60 || cfg.fps == 90
            &&& 1 <= cfg.max_duration_secs <= 7_200
        },
{
}

/// What is recorded is what was asked for: without a request, or with one for the whole display,
/// all of it; otherwise the requested part, from where it starts and as far as the display goes.
/// Only where nothing of it lies on the display the whole display takes its place.
pub proof fn law_chosen_region_is_the_requested_one(q: Region, width: u32, height: u32)
    requires
        width > 0,
        height > 0,
    ensures
        chosen_region(None, width, height) is Full,
        chosen_region(Some(q), width, height) is Full <==> q.x == 0 && q.y == 0 && q.width == width
            && q.height == height,
        chosen_region(Some(q), width, height) matches RegionChoice::Part(r) ==> {
            &&& r.x == q.x && r.y == q.y
            &&& r.width <= q.width && r.height <= q.height
            &&& r.x + r.width <= width && r.y + r.height <= height
            &&& r.width + 2 > q.width || r.x + r.width + 2 > width
            &&& r.height + 2 > q.height || r.y + r.height + 2 > height
        },
        q.x >= width || q.y >= height || q.width < 2 || q.height < 2 ==> chosen_region(
            Some(q),
            width,
            height,
        ) is FallbackToFull || chosen_region(Some(q), width, height) is Full,
        q.x + 2 <= width && q.y + 2 <= height && q.width >= 2 && q.height >= 2 ==> !(chosen_region(
            Some(q),
            width,
            height,
        ) is FallbackToFull),
{
}

} // verus!
