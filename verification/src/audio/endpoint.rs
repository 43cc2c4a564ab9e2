//! Decisions around an audio endpoint: which one to open, in which format, and what a packet of
//! the device becomes.

use super::source::{AudioDirection, AudioEndpoint};
use super::{
    convert_to_pcm16, device_sample, push_silence, sample_bytes, silent_samples, AudioChunk,
    AudioFormat, SampleFormat,
};
use crate::consts::{MF_TICKS_PER_SEC, SILENCE_CHUNK_MS};
use crate::error::{internal, MediaError, MediaResult, OsError};
use crate::text::{decimal, push_decimal, same_text, trim, trimmed};
use crate::time::{quotient_toward_zero, srt_from_qpc, QpcTicks};
use vstd::prelude::*;

verus! {

/// Stream flag: record what a render endpoint plays.
pub const STREAMFLAGS_LOOPBACK: u32 = 0x0002_0000;

/// Stream flag: let the audio engine convert to the requested format.
pub const STREAMFLAGS_AUTOCONVERTPCM: u32 = 0x8000_0000;

/// Stream flag: resample in default quality.
pub const STREAMFLAGS_SRC_DEFAULT_QUALITY: u32 = 0x0800_0000;

/// Packet flag: the packet is silent, its data may be invalid.
pub const BUFFERFLAGS_SILENT: u32 = 2;

/// Capture buffer length in units of 100 ns.
pub const BUFFER_DURATION: i64 = 10_000_000;

/// A wave format as the audio engine wants it described.
#[derive(Debug, Clone, Copy, PartialEq, Eq, Structural)]
pub struct WaveFormat {
    pub tag: u16,
    pub channels: u16,
    pub samples_per_sec: u32,
    pub avg_bytes_per_sec: u32,
    pub block_align: u16,
    pub bits_per_sample: u16,
}

impl WaveFormat {
    /// The derived fields agree with the others.
    pub open spec fn consistent(self) -> bool {
        &&& self.block_align * 8 == self.channels * self.bits_per_sample
        &&& self.avg_bytes_per_sec == self.samples_per_sec * self.block_align
    }
}

/// The format that every endpoint is asked for: 48 kHz, two channels, single precision.
pub fn requested_48k_f32() -> (w: WaveFormat)
    ensures
        w.tag == 3,
        w.samples_per_sec == 48_000,
        w.channels == 2,
        w.bits_per_sample == 32,
        w.consistent(),
{
    WaveFormat {
        tag: 3,
        channels: 2,
        samples_per_sec: 48_000,
        avg_bytes_per_sec: 384_000,
        block_align: 8,
        bits_per_sample: 32,
    }
}

/// The sample format that goes with [`requested_48k_f32`].
pub fn requested_format() -> (f: AudioFormat)
    ensures
        f == (AudioFormat { sample_rate: 48_000, channels: 2, format: SampleFormat::Float32 }),
{
    AudioFormat { sample_rate: 48_000, channels: 2, format: SampleFormat::Float32 }
}

/// Stream flags for an endpoint: conversion always, loopback for what the system plays.
pub fn stream_flags(direction: AudioDirection) -> (flags: u32)
    ensures
        flags == (match direction {
            AudioDirection::Render => STREAMFLAGS_LOOPBACK,
            AudioDirection::Capture => 0u32,
        }) | STREAMFLAGS_AUTOCONVERTPCM | STREAMFLAGS_SRC_DEFAULT_QUALITY,
{
    let base: u32 = match direction {
        AudioDirection::Render => STREAMFLAGS_LOOPBACK,
        AudioDirection::Capture => 0,
    };
    base | STREAMFLAGS_AUTOCONVERTPCM | STREAMFLAGS_SRC_DEFAULT_QUALITY
}

/// The counter frequency can be divided by.
pub fn check_frequency(qpc_frequency: i64) -> (r: MediaResult<()>)
    ensures
        r is Ok <==> qpc_frequency > 0,
        r matches Err(e) ==> (e matches MediaError::Internal(text) && text@
            == "QueryPerformanceFrequency 返回非正值"@),
{
    if qpc_frequency <= 0 {
        Err(internal("QueryPerformanceFrequency 返回非正值"))
    } else {
        Ok(())
    }
}

/// The sample format of a native mix format: 16 bits are integers, 32 bits single precision.
pub open spec fn native_format(bits: u16, channels: u16, sample_rate: u32) -> Option<AudioFormat> {
    if (bits == 16 || bits == 32) && channels > 0 && sample_rate > 0 {
        Some(
            AudioFormat {
                sample_rate,
                channels,
                format: if bits == 16 {
                    SampleFormat::Pcm16
                } else {
                    SampleFormat::Float32
                },
            },
        )
    } else {
        None
    }
}

/// What is wrong with a native mix format.
pub open spec fn native_format_error(bits: u16, channels: u16, sample_rate: u32) -> Seq<char> {
    if bits != 16 && bits != 32 {
        "不支持的混音位深："@ + decimal(bits as nat) + " 位（仅支持 16/32）"@
    } else {
        "混音格式非法："@ + decimal(channels as nat) + " 声道 @ "@ + decimal(sample_rate as nat)
            + " Hz"@
    }
}

/// Reads a native mix format.
pub fn read_format(bits: u16, channels: u16, sample_rate: u32) -> (r: MediaResult<AudioFormat>)
    ensures
        r matches Ok(f) ==> native_format(bits, channels, sample_rate) == Some(f),
        r matches Err(e) ==> native_format(bits, channels, sample_rate) is None && (
        e matches MediaError::Internal(text) && text@ == native_format_error(
            bits,
            channels,
            sample_rate,
        )),
{
    let format: SampleFormat = if bits == 16 {
        SampleFormat::Pcm16
    } else if bits == 32 {
        SampleFormat::Float32
    } else {
        let mut text: String = String::from_str("不支持的混音位深：");
        push_decimal(&mut text, bits as u64);
        text.append(" 位（仅支持 16/32）");
        return Err(MediaError::Internal(text));
    };
    if channels == 0 || sample_rate == 0 {
        let mut text: String = String::from_str("混音格式非法：");
        push_decimal(&mut text, channels as u64);
        text.append(" 声道 @ ");
        push_decimal(&mut text, sample_rate as u64);
        text.append(" Hz");
        return Err(MediaError::Internal(text));
    }
    Ok(AudioFormat { sample_rate, channels, format })
}

/// The format that an endpoint is opened with: the requested one where the audio engine accepted
/// it, else the endpoint's own mix format (bits, channels, sample rate), where it has one.
pub fn opened_with(
    accepted: bool,
    native: Result<Option<(u16, u16, u32)>, OsError>,
) -> (r: MediaResult<AudioFormat>)
    ensures
        accepted ==> r == Ok::<AudioFormat, MediaError>(
            AudioFormat { sample_rate: 48_000, channels: 2, format: SampleFormat::Float32 },
        ),
        !accepted ==> match native {
            Err(source) => r == Err::<AudioFormat, MediaError>(
                MediaError::Windows { context: "GetMixFormat", source },
            ),
            Ok(None) => r matches Err(MediaError::Internal(text)) && text@
                == "GetMixFormat 返回空指针"@,
            Ok(Some((bits, channels, rate))) => match native_format(bits, channels, rate) {
                Some(f) => r == Ok::<AudioFormat, MediaError>(f),
                None => r matches Err(MediaError::Internal(text)) && text@ == native_format_error(
                    bits,
                    channels,
                    rate,
                ),
            },
        },
{
    if accepted {
        return Ok(requested_format());
    }
    match native {
        Err(source) => Err(MediaError::win32("GetMixFormat", source)),
        Ok(None) => Err(internal("GetMixFormat 返回空指针")),
        Ok(Some((bits, channels, rate))) => read_format(bits, channels, rate),
    }
}

/// The samples of a device packet. A silent packet, or one without data, is silence of the
/// announced length.
pub open spec fn packet_samples(
    format: AudioFormat,
    frames: u32,
    flags: u32,
    data: Option<Seq<u8>>,
) -> Seq<i16> {
    let n = (frames * format.channels) as nat;
    if flags & BUFFERFLAGS_SILENT != 0 || data is None {
        silent_samples(n)
    } else {
        Seq::new(n, |i: int| device_sample(data->0, i, format.format))
    }
}

/// Turns a device packet into a chunk: its samples, and its counter position converted to system
/// relative time.
pub fn packet_to_chunk(
    format: &AudioFormat,
    frames: u32,
    flags: u32,
    data: Option<&[u8]>,
    qpc: i64,
    qpc_frequency: i64,
) -> (chunk: AudioChunk)
    requires
        qpc_frequency > 0,
        frames * format.channels <= usize::MAX,
        data matches Some(bytes) ==> frames * format.channels * sample_bytes(format.format)
            <= bytes.len(),
    ensures
        chunk.pcm@ == packet_samples(
            *format,
            frames,
            flags,
            match data {
                Some(bytes) => Some(bytes@),
                None => None,
            },
        ),
        chunk.frames == frames,
        chunk.srt.0 == quotient_toward_zero(qpc * MF_TICKS_PER_SEC, qpc_frequency as int) as i64,
{
    assert(0 <= frames * format.channels) by (nonlinear_arith)
        requires
            0 <= frames,
            0 <= format.channels,
    ;
    let mut pcm: Vec<i16> = Vec::new();
    match data {
        Some(bytes) if flags & BUFFERFLAGS_SILENT == 0 => {
            pcm = convert_to_pcm16(bytes, frames as usize, format);
        },
        _ => {
            push_silence(&mut pcm, frames as usize * format.channels as usize);
            assert(pcm@ == silent_samples((frames * format.channels) as nat));
        },
    }
    AudioChunk { pcm, frames, srt: srt_from_qpc(QpcTicks(qpc), qpc_frequency) }
}

/// The name shown for an endpoint: its friendly name, or its id where there is none or where it
/// is blank.
pub open spec fn shown_name(name: Option<Seq<char>>, id: Seq<char>) -> Seq<char> {
    match name {
        Some(n) if trimmed(n).len() > 0 => n,
        _ => id,
    }
}

pub fn friendly_name(name: Option<String>, fallback_id: &str) -> (r: String)
    ensures
        r@ == shown_name(
            match name {
                Some(n) => Some(n@),
                None => None,
            },
            fallback_id@,
        ),
{
    match name {
        Some(n) => {
            let bare: String = trim(n.as_str());
            if bare.as_str().is_empty() {
                fallback_id.to_owned()
            } else {
                n
            }
        },
        None => fallback_id.to_owned(),
    }
}

/// An endpoint as the device enumerator reports it.
#[derive(Debug)]
pub struct RawEndpoint {
    pub id: String,
    pub name: Option<String>,
}

/// `e` is what the raw endpoint becomes in the list.
pub open spec fn listed(
    raw: RawEndpoint,
    direction: AudioDirection,
    default_id: Seq<char>,
    e: AudioEndpoint,
) -> bool {
    &&& e.id@ == raw.id@
    &&& e.name@ == shown_name(
        match raw.name {
            Some(n) => Some(n@),
            None => None,
        },
        raw.id@,
    )
    &&& e.direction == direction
    &&& e.is_default == (raw.id@ == default_id)
}

/// The endpoints that have an id.
pub open spec fn identified(raw: Seq<RawEndpoint>) -> Seq<RawEndpoint>
    decreases raw.len(),
{
    if raw.len() == 0 {
        Seq::empty()
    } else if raw.last().id@.len() == 0 {
        identified(raw.drop_last())
    } else {
        identified(raw.drop_last()).push(raw.last())
    }
}

/// The list of active endpoints: those without an id are left out, the default one is marked.
pub fn list_endpoints(direction: AudioDirection, default_id: &str, raw: &Vec<RawEndpoint>) -> (out:
    Vec<AudioEndpoint>)
    ensures
        out.len() == identified(raw@).len(),
        forall|i: int|
            0 <= i < out.len() ==> listed(
                identified(raw@)[i],
                direction,
                default_id@,
                #[trigger] out@[i],
            ),
{
    let mut out: Vec<AudioEndpoint> = Vec::new();
    let mut k: usize = 0;
    while k < raw.len()
        invariant
            k <= raw.len(),
            out.len() == identified(raw@.take(k as int)).len(),
            forall|i: int|
                0 <= i < out.len() ==> listed(
                    identified(raw@.take(k as int))[i],
                    direction,
                    default_id@,
                    #[trigger] out@[i],
                ),
        decreases raw.len() - k,
    {
        assert(raw@.take(k + 1).drop_last() == raw@.take(k as int));
        let r: &RawEndpoint = &raw[k];
        if !r.id.as_str().is_empty() {
            let name: String = match &r.name {
                Some(n) => friendly_name(Some(n.clone()), r.id.as_str()),
                None => friendly_name(None, r.id.as_str()),
            };
            out.push(
                AudioEndpoint {
                    id: r.id.clone(),
                    name,
                    direction,
                    is_default: same_text(r.id.as_str(), default_id),
                },
            );
        }
        k = k + 1;
    }
    assert(raw@.take(k as int) == raw@);
    out
}

/// Finds the endpoint to open by its id: the first one, or an error that names it.
pub fn find_endpoint(ids: &Vec<String>, want: &str) -> (r: MediaResult<usize>)
    ensures
        r matches Ok(i) ==> i < ids.len() && ids@[i as int]@ == want@ && (forall|j: int|
            0 <= j < i ==> (#[trigger] ids@[j])@ != want@),
        r matches Err(e) ==> (forall|j: int| 0 <= j < ids.len() ==> (#[trigger] ids@[j])@ != want@)
            && (e matches MediaError::Internal(text) && text@ == "指定的音频端点不存在："@ + want@),
{
    let mut i: usize = 0;
    while i < ids.len()
        invariant
            i <= ids.len(),
            forall|j: int| 0 <= j < i ==> (#[trigger] ids@[j])@ != want@,
        decreases ids.len() - i,
    {
        if same_text(ids[i].as_str(), want) {
            return Ok(i);
        }
        i = i + 1;
    }
    Err(MediaError::Internal(String::from_str("指定的音频端点不存在：").concat(want)))
}

/// The description of an opened endpoint.
pub open spec fn opened_text(name: Seq<char>, direction: AudioDirection, f: AudioFormat) -> Seq<
    char,
> {
    name + "（"@ + (match direction {
        AudioDirection::Render => "Render"@,
        AudioDirection::Capture => "Capture"@,
    }) + "，"@ + decimal(f.sample_rate as nat) + " Hz / "@ + decimal(f.channels as nat) + " 声道）"@
}

pub fn describe_endpoint(name: &str, direction: AudioDirection, f: AudioFormat) -> (s: String)
    ensures
        s@ == opened_text(name@, direction, f),
{
    let mut s: String = name.to_owned();
    s.append("（");
    match direction {
        AudioDirection::Render => s.append("Render"),
        AudioDirection::Capture => s.append("Capture"),
    }
    s.append("，");
    push_decimal(&mut s, f.sample_rate as u64);
    s.append(" Hz / ");
    push_decimal(&mut s, f.channels as u64);
    s.append(" 声道）");
    s
}

/// Frames of one grid slot at a sample rate; at least one.
pub open spec fn grid_frames(sample_rate: int) -> int {
    if sample_rate * SILENCE_CHUNK_MS / 1000 < 1 {
        1
    } else {
        sample_rate * SILENCE_CHUNK_MS / 1000
    }
}

pub fn slot_frames_for(sample_rate: u32) -> (n: usize)
    ensures
        n == grid_frames(sample_rate as int),
{
    let frames: u64 = sample_rate as u64 * SILENCE_CHUNK_MS as u64 / 1000;
    if frames < 1 {
        1
    } else {
        frames as usize
    }
}

/// A device of at least 50 Hz gets slots of exactly the grid length or less than one frame
/// shorter, so the slots of all sources stay on one grid.
pub proof fn law_slots_match_the_grid(sample_rate: int)
    requires
        sample_rate >= 50,
    ensures
        grid_frames(sample_rate) * 1000 <= sample_rate * SILENCE_CHUNK_MS < (grid_frames(
            sample_rate,
        ) + 1) * 1000,
{
}

/// A mix format is accepted where its samples have 16 or 32 bits and it has channels and a rate;
/// the samples keep their width, the channels and the rate are those of the device.
pub proof fn law_native_formats_are_kept(bits: u16, channels: u16, sample_rate: u32)
    ensures
        native_format(bits, channels, sample_rate) is Some <==> (bits == 16 || bits == 32)
            && channels > 0 && sample_rate > 0,
        native_format(bits, channels, sample_rate) matches Some(f) ==> {
            &&& f.channels == channels
            &&& f.sample_rate == sample_rate
            &&& sample_bytes(f.format) * 8 == bits
        },
{
}

/// A packet becomes as many samples as it announces. Where it is marked silent or has no data they
/// are all zero; otherwise each is read from its own place, in the order of the device.
pub proof fn law_packets_keep_their_samples(
    format: AudioFormat,
    frames: u32,
    flags: u32,
    data: Option<Seq<u8>>,
    i: int,
)
    requires
        0 <= i < frames * format.channels,
    ensures
        packet_samples(format, frames, flags, data).len() == frames * format.channels,
        flags & 2 != 0 ==> packet_samples(format, frames, flags, data)[i] == 0,
        data is None ==> packet_samples(format, frames, flags, data)[i] == 0,
        flags & 2 == 0 && data is Some && format.format == SampleFormat::Pcm16 ==> ({
            let low = data->0[2 * i] as int;
            let high = data->0[2 * i + 1] as int;
            packet_samples(format, frames, flags, data)[i] == (if high >= 128 {
                low + 256 * high - 65536
            } else {
                low + 256 * high
            })
        }),
        flags & 2 == 0 && data is Some && format.format == SampleFormat::Float32 ==> ({
            let bits = data->0[4 * i] + 256 * data->0[4 * i + 1] + 65536 * data->0[4 * i + 2]
                + 16777216 * data->0[4 * i + 3];
            packet_samples(format, frames, flags, data)[i]
                == crate::audio::gain::pcm16_of_single(bits as u32)
        }),
{
}

/// An endpoint is shown by its name where the name says anything, else by its id.
pub proof fn law_endpoints_are_shown_by_name(name: Seq<char>, id: Seq<char>)
    ensures
        trimmed(name).len() > 0 ==> shown_name(Some(name), id) == name,
        trimmed(name).len() == 0 ==> shown_name(Some(name), id) == id,
        shown_name(None, id) == id,
{
}

/// The list shows an endpoint as it is: its id, its direction, and whether it is the default.
pub proof fn law_listed_endpoints_keep_their_identity(
    raw: RawEndpoint,
    direction: AudioDirection,
    default_id: Seq<char>,
    e: AudioEndpoint,
)
    requires
        listed(raw, direction, default_id, e),
    ensures
        e.id@ == raw.id@,
        e.direction == direction,
        e.is_default <==> e.id@ == default_id,
        raw.name is None ==> e.name@ == raw.id@,
        raw.name matches Some(n) ==> e.name@ == n@ || (trimmed(n@).len() == 0 && e.name@ == raw.id@),
        raw.name matches Some(n) ==> trimmed(n@).len() > 0 ==> e.name@ == n@,
{
}

/// The list holds every endpoint that has an id and no other, in the order of the device
/// enumerator: listing one part after the other is listing all.
pub proof fn law_every_identified_endpoint_is_listed(raw: Seq<RawEndpoint>, more: Seq<RawEndpoint>)
    ensures
        identified(raw + more) == identified(raw) + identified(more),
        more.len() == 1 && more[0].id@.len() > 0 ==> identified(more) == more,
        more.len() == 1 && more[0].id@.len() == 0 ==> identified(more).len() == 0,
        forall|i: int|
            0 <= i < identified(raw).len() ==> (#[trigger] identified(raw)[i]).id@.len() > 0,
    decreases raw.len() + more.len(),
{
    if raw.len() > 0 {
        law_every_identified_endpoint_is_listed(raw.drop_last(), Seq::empty());
    }
    if more.len() > 0 {
        law_every_identified_endpoint_is_listed(raw, more.drop_last());
        assert((raw + more).drop_last() == raw + more.drop_last());
        assert((raw + more).last() == more.last());
        if more.len() == 1 {
            assert(more.drop_last() == Seq::<RawEndpoint>::empty());
            assert(identified(Seq::<RawEndpoint>::empty()).len() == 0);
            assert(identified(more).len() == 1 ==> identified(more) =~= more);
        }
        assert(identified(raw + more) =~= identified(raw) + identified(more));
    } else {
        assert(raw + more == raw);
        assert(identified(raw) + identified(more) =~= identified(raw));
    }
}

} // verus!
