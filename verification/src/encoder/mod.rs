//! The encoder layer: what an encoder can do, how it is configured, and what it is given.
//!
//! Backend and codec are two independent dimensions.

pub mod capabilities;
pub mod media_types;
pub mod planes;
pub mod setup;

use crate::audio::{AudioChunk, AudioFormat, ChunkView};
use crate::convert::Nv12Image;
use crate::error::{internal, MediaError, MediaResult};
use crate::text::{decimal, push_decimal};
use crate::time::MfTime100ns;
use std::sync::Arc;
use vstd::prelude::*;

verus! {

#[derive(Debug, Clone, Copy, PartialEq, Eq, Structural)]
pub enum EncoderBackend {
    MediaFoundation,
    D3D12Video,
}

#[derive(Debug, Clone, Copy, PartialEq, Eq, Structural)]
pub enum CodecId {
    H264,
    HEVC,
    AV1,
}

impl CodecId {
    pub fn as_str(&self) -> (s: &'static str)
        ensures
            s@ == (match *self {
                CodecId::H264 => "H264"@,
                CodecId::HEVC => "HEVC"@,
                CodecId::AV1 => "AV1"@,
            }),
    {
        match self {
            CodecId::H264 => "H264",
            CodecId::HEVC => "HEVC",
            CodecId::AV1 => "AV1",
        }
    }
}

/// A preference, not a demand: an encoder in software may still be the one that runs.
#[derive(Debug, Clone, Copy, PartialEq, Eq, Structural)]
pub enum HardwarePreference {
    PreferHardware,
    /// For diagnosis.
    PreferSoftware,
}

#[derive(Debug, Clone, Copy, PartialEq, Eq, Structural)]
pub enum HardwareSupport {
    Available,
    Unavailable,
    Unknown,
}

#[derive(Debug, Clone, Copy, PartialEq, Eq, Structural)]
pub enum FeatureSupport {
    Supported,
    Unsupported,
    Unknown,
}

#[derive(Debug, Clone, Copy, PartialEq, Eq, Structural)]
pub enum RateControlMode {
    Cbr,
    PeakConstrainedVbr,
    Unknown,
}

#[derive(Debug, Clone, Copy, PartialEq, Eq, Structural)]
pub enum PixelFormat {
    Nv12,
}

/// What an encoder is known to do. A size of 0 and a missing value mean "not known".
#[derive(Debug)]
pub struct EncoderCapabilities {
    pub backend: EncoderBackend,
    pub codec: CodecId,
    pub hardware: HardwareSupport,
    pub input_formats: Vec<PixelFormat>,
    pub max_width: u32,
    pub max_height: u32,
    pub max_fps: Option<u32>,
    pub features: EncoderFeatures,
    pub notes: Vec<String>,
}

#[derive(Debug)]
pub struct EncoderFeatures {
    pub bframes: FeatureSupport,
    pub rate_control: Vec<RateControlMode>,
    pub low_latency: FeatureSupport,
    pub max_bitrate: Option<u32>,
}

#[derive(Debug)]
pub struct EncoderConfig {
    pub width: u32,
    pub height: u32,
    pub fps: u32,
    pub bitrate: u32,
    pub gop_seconds: u32,
    pub hardware: HardwarePreference,
    /// The file that is written; it becomes `final_path` once it is complete.
    pub partial_path: String,
    pub final_path: String,
    /// Format of the audio track, or none for a recording without sound. Streams can only be
    /// added before writing begins, so it has to be known from the start.
    pub audio: Option<AudioFormat>,
}

/// What the encoder was in fact configured with.
#[derive(Debug)]
pub struct ConfigureOutcome {
    pub width: u32,
    pub height: u32,
    pub fps: u32,
    pub bitrate: u32,
    pub profile: String,
    pub hardware_requested: bool,
    /// A hardware encoder was found; that does not mean that it is the one in use.
    pub hardware_mft_found: bool,
    /// The encoding parameters were accepted.
    pub encoder_params_applied: bool,
    pub notes: Vec<String>,
}

#[derive(Debug)]
pub struct FinalizeOutcome {
    pub path: String,
    pub bytes: u64,
    pub samples: u64,
    pub duration: MfTime100ns,
}

/// Pixels of a frame. A repeated frame shares them with the frame before.
pub enum VideoFrameData {
    Cpu(Arc<Nv12Image>),
}

pub struct VideoFrame {
    pub data: VideoFrameData,
    pub pts: MfTime100ns,
    pub duration: MfTime100ns,
    pub sequence: u64,
    /// A frame was dropped before this one.
    pub discontinuity: bool,
}

impl VideoFrame {
    pub fn nv12(&self) -> (image: &Nv12Image)
        ensures
            self.data == VideoFrameData::Cpu(Arc::new(*image)),
    {
        match &self.data {
            VideoFrameData::Cpu(image) => image,
        }
    }
}

/// A sample of an encoded stream, for backends that do not write files themselves.
pub struct CompressedSample {
    pub data: Vec<u8>,
    pub pts: MfTime100ns,
    pub duration: MfTime100ns,
    pub keyframe: bool,
}

pub trait Muxer: Send {
    fn write_sample(&mut self, sample: &CompressedSample) -> MediaResult<()>;

    fn finish(self: Box<Self>) -> MediaResult<FinalizeOutcome>;
}

/// Something that is asked of an encoder while the file is written.
pub enum Request {
    Video(VideoFrame),
    Audio { chunk: ChunkView, format: AudioFormat, pts: MfTime100ns, duration: MfTime100ns },
    Flush,
}

/// A request with the encoder's answer.
pub struct Exchange {
    pub request: Request,
    /// Why the encoder refused it, where it did.
    pub refusal: Option<MediaError>,
}

/// Why a request was refused.
pub open spec fn refusal_of<T>(answer: MediaResult<T>) -> Option<MediaError> {
    match answer {
        Ok(_) => None,
        Err(e) => Some(e),
    }
}

impl Exchange {
    /// A packet of audio that the encoder took.
    pub open spec fn is_sound(self) -> bool {
        self.request is Audio && self.refusal is None
    }

    /// The time of the packet.
    pub open spec fn time(self) -> i64 {
        self.request->pts.0
    }
}

pub trait VideoEncoder: Send {
    /// What was asked of the encoder so far and what it answered, in order.
    closed spec fn log(&self) -> Seq<Exchange> {
        arbitrary()
    }

    /// Completing the file can have this result.
    closed spec fn can_end_as(&self, result: MediaResult<FinalizeOutcome>) -> bool {
        arbitrary()
    }

    fn capabilities(&self) -> &EncoderCapabilities;

    fn configure_outcome(&self) -> &ConfigureOutcome;

    fn submit(&mut self, frame: &VideoFrame) -> (r: MediaResult<()>)
        ensures
            final(self).log() == old(self).log().push(
                (Exchange { request: Request::Video(*frame), refusal: refusal_of(r) }),
            ),
    ;

    fn flush(&mut self) -> (r: MediaResult<()>)
        ensures
            final(self).log() == old(self).log().push(
                (Exchange { request: Request::Flush, refusal: refusal_of(r) }),
            ),
    ;

    fn finish(self: Box<Self>) -> (r: MediaResult<FinalizeOutcome>)
        ensures
            self.can_end_as(r),
    ;

    /// The index of the audio stream. A backend without audio has none.
    fn ensure_audio_stream(&mut self, format: AudioFormat) -> (r: MediaResult<u32>)
        ensures
            final(self).log() == old(self).log(),
        default_ensures
            r matches Err(e) && no_audio(e),
    {
        Err(audio_unsupported())
    }

    /// Writes audio; a backend without audio refuses with [`audio_unsupported`]. A failure must
    /// not end the video: the caller drops the audio instead.
    fn submit_audio(
        &mut self,
        chunk: &AudioChunk,
        format: AudioFormat,
        pts: MfTime100ns,
        duration: MfTime100ns,
    ) -> (r: MediaResult<()>)
        ensures
            final(self).log() == old(self).log().push(
                (Exchange {
                    request: Request::Audio { chunk: chunk@, format, pts, duration },
                    refusal: refusal_of(r),
                }),
            ),
    ;
}

/// The answer of a backend without audio.
pub open spec fn no_audio(e: MediaError) -> bool {
    e matches MediaError::Internal(text) && text@ == "该编码后端不支持音频"@
}

/// What a backend without audio answers to every audio request.
pub fn audio_unsupported() -> (e: MediaError)
    ensures
        no_audio(e),
{
    internal("该编码后端不支持音频")
}

/// An encoder takes frames of even size only.
pub fn check_encoder_size(width: u32, height: u32) -> (r: MediaResult<()>)
    ensures
        r is Ok <==> width % 2 == 0 && height % 2 == 0,
        r matches Err(e) ==> (e matches MediaError::FrameConversionFailed { reason } && reason@
            == "NV12 编码需要偶数尺寸，实际 "@ + decimal(width as nat) + "x"@ + decimal(height as nat)),
{
    if width % 2 != 0 || height % 2 != 0 {
        let mut reason: String = String::from_str("NV12 编码需要偶数尺寸，实际 ");
        push_decimal(&mut reason, width as u64);
        reason.append("x");
        push_decimal(&mut reason, height as u64);
        return Err(MediaError::FrameConversionFailed { reason });
    }
    Ok(())
}

/// A frame must have the size that the encoder was configured for.
pub fn check_frame_size(width: u32, height: u32, want_width: u32, want_height: u32) -> (r:
    MediaResult<()>)
    ensures
        r is Ok <==> width == want_width && height == want_height,
        r matches Err(e) ==> (e matches MediaError::Internal(text) && text@ == "帧尺寸 "@ + decimal(
            width as nat,
        ) + "x"@ + decimal(height as nat) + " 与编码器配置 "@ + decimal(want_width as nat) + "x"@
            + decimal(want_height as nat) + " 不一致（分辨率中途变化必须停止录制）"@),
{
    if width != want_width || height != want_height {
        let mut text: String = String::from_str("帧尺寸 ");
        push_decimal(&mut text, width as u64);
        text.append("x");
        push_decimal(&mut text, height as u64);
        text.append(" 与编码器配置 ");
        push_decimal(&mut text, want_width as u64);
        text.append("x");
        push_decimal(&mut text, want_height as u64);
        text.append(" 不一致（分辨率中途变化必须停止录制）");
        return Err(MediaError::Internal(text));
    }
    Ok(())
}

/// Length of a finished recording: its samples at its frame rate.
pub open spec fn samples_duration(samples: int, fps: int) -> int {
    samples * 10_000_000 / (if fps < 1 {
        1
    } else {
        fps
    })
}

pub fn recorded_duration(samples: u64, fps: u32) -> (d: MfTime100ns)
    requires
        samples * 10_000_000 <= i64::MAX,
    ensures
        d.0 == samples_duration(samples as int, fps as int),
{
    let rate: u64 = if fps < 1 {
        1
    } else {
        fps as u64
    };
    proof {
        vstd::arithmetic::div_mod::lemma_div_is_ordered_by_denominator(
            samples * 10_000_000,
            1,
            rate as int,
        );
    }
    MfTime100ns((samples * 10_000_000 / rate) as i64)
}

/// A recording is as long as its samples take at its frame rate, in whole ticks.
pub proof fn law_recordings_last_as_long_as_their_samples(samples: int, fps: int)
    requires
        samples >= 0,
        fps > 0,
    ensures
        samples_duration(samples, fps) * fps <= samples * 10_000_000 < (samples_duration(
            samples,
            fps,
        ) + 1) * fps,
{
    let a = samples * 10_000_000;
    vstd::arithmetic::div_mod::lemma_fundamental_div_mod(a, fps);
    vstd::arithmetic::div_mod::lemma_mod_bound(a, fps);
    let q = a / fps;
    let r = a % fps;
    assert(q * fps <= a < (q + 1) * fps) by (nonlinear_arith)
        requires
            a == fps * q + r,
            0 <= r < fps,
    ;
}

/// A request that was answered well has no refusal; a refused one keeps its error.
pub proof fn law_refusals_are_errors<T>(answer: MediaResult<T>)
    ensures
        answer is Ok <==> refusal_of(answer) is None,
        answer matches Err(e) ==> refusal_of(answer) == Some(e),
{
}

/// The sound of a file is what the encoder took as sound.
pub proof fn law_sound_is_what_was_taken_as_sound(e: Exchange)
    ensures
        e.is_sound() <==> e.refusal is None && e.request is Audio,
        e.request matches Request::Audio { pts, .. } ==> e.time() == pts.0,
{
}

} // verus!
