//! The numbers that describe streams to the media layer.

use super::EncoderConfig;
use crate::audio::AudioFormat;
use vstd::prelude::*;

verus! {

/// Two numbers in one: the first in the upper half.
pub open spec fn packed(hi: u32, lo: u32) -> u64 {
    (hi * 0x1_0000_0000 + lo) as u64
}

/// Packs two numbers into one.
pub fn pack2(hi: u32, lo: u32) -> (r: u64)
    ensures
        r == packed(hi, lo),
{
    let wide: u64 = hi as u64;
    let low: u64 = lo as u64;
    assert(((wide << 32) | low) == wide * 0x1_0000_0000 + low) by (bit_vector)
        requires
            wide <= 0xffff_ffff,
            low <= 0xffff_ffff,
    ;
    (wide << 32) | low
}

/// Takes packed numbers apart.
pub fn unpack2(v: u64) -> (r: (u32, u32))
    ensures
        v == packed(r.0, r.1),
{
    ((v / 0x1_0000_0000) as u32, (v % 0x1_0000_0000) as u32)
}

/// Packing loses nothing.
pub proof fn law_packing_is_injective(a: u32, b: u32, c: u32, d: u32)
    requires
        packed(a, b) == packed(c, d),
    ensures
        a == c,
        b == d,
{
}

#[derive(Debug, Clone, Copy, PartialEq, Eq, Structural)]
pub enum H264Profile {
    High,
    Main,
}

impl H264Profile {
    pub open spec fn label(self) -> Seq<char> {
        match self {
            H264Profile::High => "High"@,
            H264Profile::Main => "Main"@,
        }
    }

    pub fn as_str(self) -> (s: &'static str)
        ensures
            s@ == self.label(),
    {
        match self {
            H264Profile::High => "High",
            H264Profile::Main => "Main",
        }
    }
}

/// The encoded video stream: progressive, square pixels.
#[derive(Debug, Clone, Copy, PartialEq, Eq, Structural)]
pub struct VideoOutputType {
    pub bitrate: u32,
    pub frame_size: u64,
    pub frame_rate: u64,
    pub pixel_aspect: u64,
    pub profile: H264Profile,
}

pub fn h264_output_type(cfg: &EncoderConfig, profile: H264Profile) -> (t: VideoOutputType)
    ensures
        t == (VideoOutputType {
            bitrate: cfg.bitrate,
            frame_size: packed(cfg.width, cfg.height),
            frame_rate: packed(cfg.fps, 1),
            pixel_aspect: packed(1, 1),
            profile,
        }),
{
    VideoOutputType {
        bitrate: cfg.bitrate,
        frame_size: pack2(cfg.width, cfg.height),
        frame_rate: pack2(cfg.fps, 1),
        pixel_aspect: pack2(1, 1),
        profile,
    }
}

/// The NV12 frames that go into the encoder: BT.709, limited range.
#[derive(Debug, Clone, Copy, PartialEq, Eq, Structural)]
pub struct VideoInputType {
    pub frame_size: u64,
    pub frame_rate: u64,
    pub pixel_aspect: u64,
}

pub fn nv12_input_type(cfg: &EncoderConfig) -> (t: VideoInputType)
    ensures
        t == (VideoInputType {
            frame_size: packed(cfg.width, cfg.height),
            frame_rate: packed(cfg.fps, 1),
            pixel_aspect: packed(1, 1),
        }),
{
    VideoInputType {
        frame_size: pack2(cfg.width, cfg.height),
        frame_rate: pack2(cfg.fps, 1),
        pixel_aspect: pack2(1, 1),
    }
}

/// Rate control: the mean bit rate, a peak of one and a half times the mean, and the distance of
/// key frames in frames.
#[derive(Debug, Clone, Copy, PartialEq, Eq, Structural)]
pub struct EncoderParams {
    pub mean_bitrate: u32,
    pub max_bitrate: u32,
    pub gop_size: u32,
}

pub fn encoder_params(cfg: &EncoderConfig) -> (p: EncoderParams)
    requires
        cfg.bitrate * 3 <= u32::MAX,
        cfg.fps * cfg.gop_seconds <= u32::MAX,
    ensures
        p.mean_bitrate == cfg.bitrate,
        p.max_bitrate == cfg.bitrate * 3 / 2,
        p.gop_size == cfg.fps * cfg.gop_seconds,
{
    assert(0 <= cfg.fps * cfg.gop_seconds) by (nonlinear_arith)
        requires
            0 <= cfg.fps,
            0 <= cfg.gop_seconds,
    ;
    EncoderParams {
        mean_bitrate: cfg.bitrate,
        max_bitrate: cfg.bitrate * 3 / 2,
        gop_size: cfg.fps * cfg.gop_seconds,
    }
}

/// Bytes per second of the AAC stream: 128 kbit/s.
pub const AAC_BYTES_PER_SECOND: u32 = 16_000;

/// Profile and level of the AAC stream: AAC-LC.
pub const AAC_PROFILE_LEVEL: u32 = 0x29;

/// The encoded audio stream: raw AAC of 16-bit samples.
#[derive(Debug, Clone, Copy, PartialEq, Eq, Structural)]
pub struct AacOutputType {
    pub bits_per_sample: u32,
    pub sample_rate: u32,
    pub channels: u32,
    pub bytes_per_second: u32,
    pub payload_type: u32,
    pub profile_level: u32,
}

pub fn aac_output_type(fmt: &AudioFormat) -> (t: AacOutputType)
    ensures
        t == (AacOutputType {
            bits_per_sample: 16,
            sample_rate: fmt.sample_rate,
            channels: fmt.channels as u32,
            bytes_per_second: AAC_BYTES_PER_SECOND,
            payload_type: 0,
            profile_level: AAC_PROFILE_LEVEL,
        }),
{
    AacOutputType {
        bits_per_sample: 16,
        sample_rate: fmt.sample_rate,
        channels: fmt.channels as u32,
        bytes_per_second: AAC_BYTES_PER_SECOND,
        payload_type: 0,
        profile_level: AAC_PROFILE_LEVEL,
    }
}

/// The samples that go into the encoder: 16-bit integers at the rate of the capture.
#[derive(Debug, Clone, Copy, PartialEq, Eq, Structural)]
pub struct PcmInputType {
    pub bits_per_sample: u32,
    pub sample_rate: u32,
    pub channels: u32,
    pub block_align: u32,
    pub bytes_per_second: u32,
}

pub fn pcm_input_type(fmt: &AudioFormat) -> (t: PcmInputType)
    requires
        fmt.sample_rate * (fmt.channels * 2) <= u32::MAX,
    ensures
        t.bits_per_sample == 16,
        t.sample_rate == fmt.sample_rate,
        t.channels == fmt.channels,
        t.block_align == fmt.channels * 2,
        t.bytes_per_second == fmt.sample_rate * (fmt.channels * 2),
{
    let block_align: u32 = fmt.channels as u32 * 2;
    assert(0 <= fmt.sample_rate * block_align) by (nonlinear_arith)
        requires
            0 <= fmt.sample_rate,
            0 <= block_align,
    ;
    PcmInputType {
        bits_per_sample: 16,
        sample_rate: fmt.sample_rate,
        channels: fmt.channels as u32,
        block_align,
        bytes_per_second: fmt.sample_rate * block_align,
    }
}

/// The first of two packed numbers is in the high half, the second in the low half.
pub proof fn law_first_number_is_in_the_high_half(hi: u32, lo: u32)
    ensures
        packed(hi, lo) / 0x1_0000_0000 == hi,
        packed(hi, lo) % 0x1_0000_0000 == lo,
{
}

} // verus!
