//! Laying out frames and samples in the buffers of the media layer.

use crate::audio::{sample16_at, AudioChunk};
use crate::convert::Nv12Image;
use vstd::prelude::*;

verus! {

/// Code of the NV12 pixel format.
pub const NV12_FOURCC: u32 = 0x3231_564e;

/// The image holds two complete planes: `height` rows of luma at distance `stride`, and behind
/// `width * height` bytes half as many rows of chroma.
pub open spec fn complete(image: Nv12Image) -> bool {
    let w = image.width as int;
    let h = image.height as int;
    let stride = image.stride as int;
    &&& w <= stride
    &&& h % 2 == 0
    &&& h > 0 ==> (h - 1) * stride + w <= image.data@.len()
    &&& h > 0 ==> w * h + (h / 2 - 1) * stride + w <= image.data@.len()
}

/// A buffer row of `pitch` bytes takes an image row, and the buffer takes all rows.
pub open spec fn buffer_fits(image: Nv12Image, pitch: int, len: int) -> bool {
    image.width <= pitch && (image.height + image.height / 2) * pitch <= len
}

/// Byte `x` of buffer row `row`: a luma row, or a chroma row behind the luma rows.
pub open spec fn plane_byte(image: Nv12Image, row: int, x: int) -> u8 {
    if row < image.height {
        image.data@[row * image.stride + x]
    } else {
        image.data@[image.width * image.height + (row - image.height) * image.stride + x]
    }
}

/// The buffer after the copy: image bytes at the start of every row, anything else as before.
pub open spec fn laid_out(image: Nv12Image, pitch: int, before: Seq<u8>) -> Seq<u8> {
    Seq::new(
        before.len(),
        |k: int|
            if k / pitch < image.height + image.height / 2 && k % pitch < image.width {
                plane_byte(image, k / pitch, k % pitch)
            } else {
                before[k]
            },
    )
}

proof fn lemma_row_bounds(row: int, rows: int, pitch: int)
    requires
        0 <= row < rows,
        0 <= pitch,
    ensures
        0 <= row * pitch,
        row * pitch + pitch <= rows * pitch,
{
    assert(0 <= row * pitch && row * pitch + pitch <= rows * pitch) by (nonlinear_arith)
        requires
            0 <= row < rows,
            0 <= pitch,
    ;
}

/// The offset of image row `row`.
fn source_offset(image: &Nv12Image, row: usize) -> (at: usize)
    requires
        complete(*image),
        row < image.height + image.height / 2,
    ensures
        at + image.width <= image.data@.len(),
        forall|x: int|
            0 <= x < image.width ==> image.data@[#[trigger] (at + x)] == plane_byte(
                *image,
                row as int,
                x,
            ),
{
    let w: usize = image.width as usize;
    let h: usize = image.height as usize;
    let len: usize = image.data.len();
    if row < h {
        proof {
            assert(0 <= row * image.stride <= (h - 1) * image.stride) by (nonlinear_arith)
                requires
                    0 <= row <= h - 1,
                    0 <= image.stride,
            ;
        }
        row * image.stride
    } else {
        let line: usize = row - h;
        proof {
            assert(0 <= line * image.stride <= (h / 2 - 1) * image.stride) by (nonlinear_arith)
                requires
                    0 <= line <= h / 2 - 1,
                    0 <= image.stride,
            ;
            assert(0 <= w * h) by (nonlinear_arith)
                requires
                    0 <= w,
                    0 <= h,
            ;
        }
        w * h + line * image.stride
    }
}

/// Copies an image into a buffer whose rows have their own distance. Using the image's stride
/// instead would slant the picture.
pub fn copy_planes(image: &Nv12Image, dst: &mut [u8], pitch: usize)
    requires
        complete(*image),
        pitch > 0,
        buffer_fits(*image, pitch as int, old(dst)@.len() as int),
    ensures
        final(dst)@ == laid_out(*image, pitch as int, old(dst)@),
{
    let w: usize = image.width as usize;
    let len: usize = dst.len();
    proof {
        assert(image.height + image.height / 2 <= len) by (nonlinear_arith)
            requires
                (image.height + image.height / 2) * pitch <= len,
                pitch >= 1,
                0 <= image.height,
        ;
    }
    let rows: usize = image.height as usize + image.height as usize / 2;
    let ghost before = dst@;
    let ghost target = laid_out(*image, pitch as int, before);
    let mut row: usize = 0;
    proof {
        assert(0 * pitch == 0) by (nonlinear_arith);
    }
    while row < rows
        invariant
            row <= rows,
            w == image.width,
            rows == image.height + image.height / 2,
            complete(*image),
            pitch > 0,
            buffer_fits(*image, pitch as int, before.len() as int),
            target == laid_out(*image, pitch as int, before),
            dst@.len() == before.len(),
            before.len() == len,
            forall|k: int| 0 <= k < row * pitch ==> dst@[k] == target[k],
            forall|k: int| row * pitch <= k < before.len() ==> dst@[k] == before[k],
        decreases rows - row,
    {
        let from: usize = source_offset(image, row);
        proof {
            lemma_row_bounds(row as int, rows as int, pitch as int);
            assert((row + 1) * pitch == row * pitch + pitch) by (nonlinear_arith);
        }
        let to: usize = row * pitch;
        let mut x: usize = 0;
        while x < w
            invariant
                x <= w,
                row < rows,
                w == image.width,
                w <= pitch,
                rows == image.height + image.height / 2,
                from + w <= image.data@.len(),
                to == row * pitch,
                to + pitch <= before.len(),
                before.len() == len,
                target == laid_out(*image, pitch as int, before),
                dst@.len() == before.len(),
                forall|i: int|
                    0 <= i < w ==> image.data@[#[trigger] (from + i)] == plane_byte(
                        *image,
                        row as int,
                        i,
                    ),
                forall|k: int| 0 <= k < to + x ==> dst@[k] == target[k],
                forall|k: int| to + x <= k < before.len() ==> dst@[k] == before[k],
            decreases w - x,
        {
            proof {
                vstd::arithmetic::div_mod::lemma_fundamental_div_mod_converse(
                    to + x,
                    pitch as int,
                    row as int,
                    x as int,
                );
            }
            let source_len: usize = image.data.len();
            assert(from + x < source_len);
            dst[to + x] = image.data[from + x];
            x = x + 1;
        }
        proof {
            assert forall|k: int| 0 <= k < to + pitch implies dst@[k] == target[k] by {
                if k >= to + w {
                    vstd::arithmetic::div_mod::lemma_fundamental_div_mod_converse(
                        k,
                        pitch as int,
                        row as int,
                        k - to,
                    );
                }
            }
        }
        row = row + 1;
    }
    proof {
        assert forall|k: int| rows * pitch <= k < before.len() implies target[k] == before[k] by {
            vstd::arithmetic::div_mod::lemma_div_is_ordered(rows * pitch, k, pitch as int);
            vstd::arithmetic::div_mod::lemma_div_multiples_vanish(rows as int, pitch as int);
            assert(rows * pitch == pitch * rows) by (nonlinear_arith);
        }
        assert(dst@ =~= target);
    }
}

/// Every row of the buffer starts with the image's row, whatever the distance of the rows.
pub proof fn law_rows_survive_any_pitch(
    image: Nv12Image,
    pitch: int,
    before: Seq<u8>,
    row: int,
    x: int,
)
    requires
        pitch > 0,
        buffer_fits(image, pitch, before.len() as int),
        0 <= row < image.height + image.height / 2,
        0 <= x < image.width,
    ensures
        0 <= row * pitch + x < before.len(),
        laid_out(image, pitch, before)[row * pitch + x] == plane_byte(image, row, x),
{
    lemma_row_bounds(row, image.height + image.height / 2, pitch);
    vstd::arithmetic::div_mod::lemma_fundamental_div_mod_converse(row * pitch + x, pitch, row, x);
}

/// The low byte of a sample.
pub open spec fn low_byte(v: i16) -> u8 {
    (v as int % 256) as u8
}

/// The high byte of a sample.
pub open spec fn high_byte(v: i16) -> u8 {
    ((v as int / 256) % 256) as u8
}

/// Samples as bytes, low byte first.
pub open spec fn sample_bytes_of(pcm: Seq<i16>) -> Seq<u8> {
    Seq::new(
        2 * pcm.len(),
        |k: int|
            if k % 2 == 0 {
                low_byte(pcm[k / 2])
            } else {
                high_byte(pcm[k / 2])
            },
    )
}

/// What is to be written for a packet: the audio stream and the bytes. A packet without samples,
/// and any packet of a recording without an audio track, is passed over.
pub fn audio_write(chunk: &AudioChunk, stream: Option<u32>) -> (r: Option<(u32, Vec<u8>)>)
    ensures
        r is Some <==> chunk.pcm@.len() > 0 && stream is Some,
        r matches Some((index, bytes)) ==> Some(index) == stream && bytes@ == sample_bytes_of(
            chunk.pcm@,
        ),
{
    if chunk.pcm.len() == 0 {
        return None;
    }
    match stream {
        None => None,
        Some(index) => {
            let mut bytes: Vec<u8> = Vec::new();
            let mut i: usize = 0;
            while i < chunk.pcm.len()
                invariant
                    i <= chunk.pcm.len(),
                    bytes@ == sample_bytes_of(chunk.pcm@.take(i as int)),
                decreases chunk.pcm.len() - i,
            {
                let v: i32 = chunk.pcm[i] as i32;
                let u: u32 = if v < 0 {
                    (v + 0x1_0000) as u32
                } else {
                    v as u32
                };
                bytes.push((u % 256) as u8);
                bytes.push((u / 256) as u8);
                i = i + 1;
                assert(bytes@ =~= sample_bytes_of(chunk.pcm@.take(i as int)));
            }
            assert(chunk.pcm@.take(i as int) == chunk.pcm@);
            Some((index, bytes))
        },
    }
}

/// Reading the bytes back yields the samples.
pub proof fn law_sample_bytes_round_trip(pcm: Seq<i16>, i: int)
    requires
        0 <= i < pcm.len(),
    ensures
        sample16_at(sample_bytes_of(pcm), 2 * i) == pcm[i],
{
}

/// The buffer shows the picture: every pixel of a row lies behind the row's start, a row of luma
/// above the next, and the chroma rows behind the luma rows. What lies between the rows and behind
/// them is left as it was.
pub proof fn law_buffer_shows_the_picture(
    image: Nv12Image,
    pitch: int,
    before: Seq<u8>,
    after: Seq<u8>,
)
    requires
        pitch > 0,
        buffer_fits(image, pitch, before.len() as int),
        after == laid_out(image, pitch, before),
    ensures
        after.len() == before.len(),
        forall|y: int, x: int|
            0 <= y < image.height && 0 <= x < image.width ==> after[#[trigger] (y * pitch + x)]
                == image.data@[y * image.stride + x],
        forall|r: int, x: int|
            0 <= r < image.height / 2 && 0 <= x < image.width ==> after[#[trigger] ((image.height
                + r) * pitch + x)] == image.data@[image.width * image.height + r * image.stride
                + x],
        forall|row: int, x: int|
            0 <= row < image.height + image.height / 2 && image.width <= x < pitch
                ==> after[#[trigger] (row * pitch + x)] == before[row * pitch + x],
        forall|k: int|
            (image.height + image.height / 2) * pitch <= k < before.len() ==> after[k] == before[k],
{
    let rows = image.height + image.height / 2;
    assert forall|row: int, x: int| 0 <= row < rows && 0 <= x < pitch implies {
        &&& 0 <= #[trigger] (row * pitch + x) < before.len()
        &&& (row * pitch + x) / pitch == row
        &&& (row * pitch + x) % pitch == x
    } by {
        lemma_row_bounds(row, rows, pitch);
        vstd::arithmetic::div_mod::lemma_fundamental_div_mod_converse(
            row * pitch + x,
            pitch,
            row,
            x,
        );
    }
    assert forall|r: int, x: int|
        0 <= r < image.height / 2 && 0 <= x < image.width implies after[#[trigger] ((image.height
        + r) * pitch + x)] == image.data@[image.width * image.height + r * image.stride + x] by {
        let row = image.height + r;
        lemma_row_bounds(row, rows, pitch);
        vstd::arithmetic::div_mod::lemma_fundamental_div_mod_converse(
            row * pitch + x,
            pitch,
            row,
            x,
        );
    }
    assert forall|k: int| rows * pitch <= k < before.len() implies after[k] == before[k] by {
        vstd::arithmetic::div_mod::lemma_div_is_ordered(rows * pitch, k, pitch);
        vstd::arithmetic::div_mod::lemma_div_multiples_vanish(rows, pitch);
        assert(rows * pitch == pitch * rows) by (nonlinear_arith);
        assert(k >= 0) by {
            assert(rows * pitch >= 0) by (nonlinear_arith)
                requires
                    rows >= 0,
                    pitch > 0,
            ;
        }
    }
}

/// A sample takes two bytes, the low one first: together they are the sample, or what it is above
/// -65536 where it is negative.
pub proof fn law_low_bytes_come_first(pcm: Seq<i16>, i: int)
    requires
        0 <= i < pcm.len(),
    ensures
        sample_bytes_of(pcm).len() == 2 * pcm.len(),
        sample_bytes_of(pcm)[2 * i] + 256 * sample_bytes_of(pcm)[2 * i + 1] == (if pcm[i] < 0 {
            pcm[i] + 0x1_0000
        } else {
            pcm[i] as int
        }),
{
}

} // verus!
