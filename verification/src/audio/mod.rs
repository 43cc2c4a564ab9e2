//! Audio: sample formats, packets and their conversion to interleaved 16-bit samples.
//!
//! Every packet carries the system relative time of its first frame, converted from the
//! performance counter position that the device reports. Sources meet in [`mixer`].

pub mod endpoint;
pub mod gain;
pub mod mixer;
pub mod rounds;
pub mod run;
pub mod source;
pub mod tap;

use crate::error::{MediaError, MediaResult};
use crate::text::{decimal, push_decimal};
use crate::time::Srt100ns;
use gain::{pcm16_from_single, pcm16_of_single, Gain};
use source::AudioSourceKind;
use vstd::prelude::*;

verus! {

/// Sample type of a device's mix format.
#[derive(Debug, Clone, Copy, PartialEq, Eq, Structural)]
pub enum SampleFormat {
    Pcm16,
    Float32,
}

#[derive(Debug, Clone, Copy, PartialEq, Eq, Structural)]
pub struct AudioFormat {
    pub sample_rate: u32,
    pub channels: u16,
    pub format: SampleFormat,
}

impl AudioFormat {
    /// Bytes of one frame (all channels) after conversion to 16 bits.
    pub fn frame_bytes(&self) -> (n: usize)
        ensures
            n == self.channels * 2,
    {
        self.channels as usize * 2
    }
}

/// What a packet holds: interleaved samples, their number of frames, and the time of the first.
pub struct ChunkView {
    pub pcm: Seq<i16>,
    pub frames: u32,
    pub srt: i64,
}

/// A packet of interleaved 16-bit samples.
#[derive(Debug)]
pub struct AudioChunk {
    pub pcm: Vec<i16>,
    pub frames: u32,
    /// System relative time of the first frame, in the time domain of the video frames.
    pub srt: Srt100ns,
}

impl View for AudioChunk {
    type V = ChunkView;

    open spec fn view(&self) -> ChunkView {
        ChunkView { pcm: self.pcm@, frames: self.frames, srt: self.srt.0 }
    }
}

/// `n` samples of silence.
pub open spec fn silent_samples(n: nat) -> Seq<i16> {
    Seq::new(n, |i: int| 0i16)
}

/// Appends silence up to a length of `upto` samples.
pub(crate) fn push_silence(pcm: &mut Vec<i16>, upto: usize)
    requires
        old(pcm).len() <= upto,
    ensures
        final(pcm)@ == old(pcm)@ + silent_samples((upto - old(pcm)@.len()) as nat),
{
    let ghost before = pcm@;
    assert(pcm@ == before + silent_samples(0));
    while pcm.len() < upto
        invariant
            before.len() <= pcm.len() <= upto,
            pcm@ == before + silent_samples((pcm.len() - before.len()) as nat),
        decreases upto - pcm.len(),
    {
        pcm.push(0);
        assert(pcm@ == before + silent_samples((pcm.len() - before.len()) as nat));
    }
}

impl AudioChunk {
    /// A packet of silence. A loopback device delivers no packet while nothing plays, yet the
    /// audio track has to advance: without it the muxer would wait and hold up the video.
    pub fn silence(format: &AudioFormat, frames: u32, srt: Srt100ns) -> (chunk: AudioChunk)
        requires
            frames * format.channels <= usize::MAX,
        ensures
            chunk.pcm@ == silent_samples((frames * format.channels) as nat),
            chunk.frames == frames,
            chunk.srt == srt,
    {
        assert(0 <= frames * format.channels) by (nonlinear_arith)
            requires
                0 <= frames,
                0 <= format.channels,
        ;
        let mut pcm: Vec<i16> = Vec::new();
        push_silence(&mut pcm, frames as usize * format.channels as usize);
        assert(pcm@ == silent_samples((frames * format.channels) as nat));
        AudioChunk { pcm, frames, srt }
    }
}

/// The absolute value of a sample.
pub open spec fn sample_size(v: i16) -> int {
    if v < 0 {
        -v
    } else {
        v as int
    }
}

/// The largest absolute value of the samples, or 0 where there are none.
pub open spec fn peak_of(pcm: Seq<i16>) -> int
    decreases pcm.len(),
{
    if pcm.len() == 0 {
        0
    } else {
        let earlier = peak_of(pcm.drop_last());
        if sample_size(pcm.last()) > earlier {
            sample_size(pcm.last())
        } else {
            earlier
        }
    }
}

/// Peak of a packet. A recording without sound whose peak is 0 throughout was fed digital
/// silence by the device; any other peak points at the playback side.
pub fn pcm_peak(pcm: &[i16]) -> (r: u64)
    ensures
        r == peak_of(pcm@),
        r <= 32768,
{
    let mut peak: u64 = 0;
    let mut i: usize = 0;
    assert(pcm@.take(0) == Seq::<i16>::empty());
    while i < pcm.len()
        invariant
            i <= pcm.len(),
            peak == peak_of(pcm@.take(i as int)),
            peak <= 32768,
        decreases pcm.len() - i,
    {
        let v: i16 = pcm[i];
        let size: u64 = if v < 0 {
            (-(v as i64)) as u64
        } else {
            v as u64
        };
        assert(pcm@.take(i + 1).drop_last() == pcm@.take(i as int));
        if size > peak {
            peak = size;
        }
        i = i + 1;
    }
    assert(pcm@.take(pcm@.len() as int) == pcm@);
    peak
}

/// The peak is the least bound of all absolute values: no sample exceeds it, and where there is
/// any sound some sample reaches it.
pub proof fn law_peak_is_the_largest_sample(pcm: Seq<i16>)
    ensures
        forall|i: int| 0 <= i < pcm.len() ==> sample_size(#[trigger] pcm[i]) <= peak_of(pcm),
        pcm.len() > 0 ==> exists|i: int|
            0 <= i < pcm.len() && sample_size(#[trigger] pcm[i]) == peak_of(pcm),
    decreases pcm.len(),
{
    if pcm.len() > 0 {
        let init = pcm.drop_last();
        law_peak_is_the_largest_sample(init);
        assert forall|i: int| 0 <= i < pcm.len() implies sample_size(#[trigger] pcm[i]) <= peak_of(
            pcm,
        ) by {
            if i < pcm.len() - 1 {
                assert(init[i] == pcm[i]);
            }
        }
        if sample_size(pcm.last()) > peak_of(init) || init.len() == 0 {
            assert(sample_size(pcm[pcm.len() - 1]) == peak_of(pcm));
        } else {
            let w = choose|i: int|
                0 <= i < init.len() && sample_size(#[trigger] init[i]) == peak_of(init);
            assert(init[w] == pcm[w]);
        }
    }
}

/// One source to record: its kind and its linear gain.
#[derive(Debug, Clone, Copy, PartialEq, Eq, Structural)]
pub struct AudioSourceSpec {
    pub kind: AudioSourceKind,
    pub gain: Gain,
}

/// The 16-bit sample at byte `at`, low byte first.
pub open spec fn sample16_at(data: Seq<u8>, at: int) -> i16 {
    let u = data[at] + 256 * data[at + 1];
    if u < 0x8000 {
        u as i16
    } else {
        (u - 0x1_0000) as i16
    }
}

/// The 32-bit pattern at byte `at`, low byte first.
pub open spec fn bits32_at(data: Seq<u8>, at: int) -> u32 {
    (data[at] + 256 * data[at + 1] + 0x1_0000 * data[at + 2] + 0x100_0000 * data[at + 3]) as u32
}

/// Bytes of one device sample.
pub open spec fn sample_bytes(format: SampleFormat) -> int {
    match format {
        SampleFormat::Pcm16 => 2,
        SampleFormat::Float32 => 4,
    }
}

/// Sample `i` of a device buffer as a 16-bit sample.
pub open spec fn device_sample(data: Seq<u8>, i: int, format: SampleFormat) -> i16 {
    match format {
        SampleFormat::Pcm16 => sample16_at(data, 2 * i),
        SampleFormat::Float32 => pcm16_of_single(bits32_at(data, 4 * i)),
    }
}

/// Converts a device buffer of interleaved samples into 16-bit samples.
pub fn convert_to_pcm16(data: &[u8], frames: usize, fmt: &AudioFormat) -> (out: Vec<i16>)
    requires
        frames * fmt.channels * sample_bytes(fmt.format) <= data.len(),
    ensures
        out@ == Seq::new(
            (frames * fmt.channels) as nat,
            |i: int| device_sample(data@, i, fmt.format),
        ),
{
    assert(0 <= frames * fmt.channels) by (nonlinear_arith)
        requires
            0 <= frames,
            0 <= fmt.channels,
    ;
    let samples: usize = frames * fmt.channels as usize;
    let mut out: Vec<i16> = Vec::new();
    let mut i: usize = 0;
    while i < samples
        invariant
            samples == frames * fmt.channels,
            samples * sample_bytes(fmt.format) <= data.len(),
            i <= samples,
            out@ == Seq::new(i as nat, |j: int| device_sample(data@, j, fmt.format)),
        decreases samples - i,
    {
        let v: i16 = match fmt.format {
            SampleFormat::Pcm16 => {
                let u: i32 = data[2 * i] as i32 + 256 * (data[2 * i + 1] as i32);
                if u < 0x8000 {
                    u as i16
                } else {
                    (u - 0x1_0000) as i16
                }
            },
            SampleFormat::Float32 => {
                let bits: u32 = data[4 * i] as u32 + 256 * (data[4 * i + 1] as u32) + 0x1_0000 * (
                data[4 * i + 2] as u32) + 0x100_0000 * (data[4 * i + 3] as u32);
                pcm16_from_single(bits)
            },
        };
        out.push(v);
        i = i + 1;
        assert(out@ == Seq::new(i as nat, |j: int| device_sample(data@, j, fmt.format)));
    }
    out
}

/// Silence is as long as asked for, and every sample of it is zero.
pub proof fn law_silence_is_zero(n: nat)
    ensures
        silent_samples(n).len() == n,
        forall|i: int| 0 <= i < n ==> (#[trigger] silent_samples(n)[i]) == 0,
{
}

/// A device sample is read from its own bytes, the low byte first: two bytes as a signed number,
/// or four as the bit pattern of a single precision number.
pub proof fn law_samples_are_read_in_place(data: Seq<u8>, i: int)
    ensures
        ({
            let low = data[2 * i] as int;
            let high = data[2 * i + 1] as int;
            device_sample(data, i, SampleFormat::Pcm16) == (if high >= 128 {
                low + 256 * high - 65536
            } else {
                low + 256 * high
            })
        }),
        ({
            let bits = data[4 * i] + 256 * data[4 * i + 1] + 65536 * data[4 * i + 2] + 16777216
                * data[4 * i + 3];
            device_sample(data, i, SampleFormat::Float32) == pcm16_of_single(bits as u32)
        }),
        sample_bytes(SampleFormat::Pcm16) == 2,
        sample_bytes(SampleFormat::Float32) == 4,
{
}

/// The absolute value has the size of the sample and no sign.
pub proof fn law_sample_size_has_no_sign(v: i16)
    ensures
        sample_size(v) >= 0,
        sample_size(v) == v || sample_size(v) == -v,
{
}

} // verus!
