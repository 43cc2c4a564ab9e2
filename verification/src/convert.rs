//! Frame geometry and the conversion of captured BGRA pixels to NV12.
//!
//! The capture delivers BGRA; the encoder wants NV12: a plane of luma bytes followed by a plane
//! of interleaved chroma bytes at half the resolution. Coefficients are BT.709, limited range.

use crate::consts::clamped;
use crate::error::{MediaError, MediaResult};
use crate::share::{
    is_number, law_direction_does_not_matter, law_whole_span_is_the_length, limited, span_pixels,
    to_span, Share, ONE_SHARE,
};
use crate::text::{decimal, push_decimal, push_wide_decimal};
use vstd::prelude::*;

verus! {

/// A rectangle of physical pixels, counted from the display's upper left corner.
#[derive(Debug, Clone, Copy, PartialEq, Eq, Structural)]
pub struct Region {
    pub x: u32,
    pub y: u32,
    pub width: u32,
    pub height: u32,
}

/// `n`, or the even number below it.
pub open spec fn even_below(n: u32) -> u32 {
    (n - n % 2) as u32
}

/// The smaller of two numbers.
pub open spec fn lesser(a: int, b: int) -> int {
    if a < b {
        a
    } else {
        b
    }
}

/// Crops odd sizes to even ones: NV12 shares one chroma sample between two rows and columns.
pub fn even_dimensions(width: u32, height: u32) -> (r: (u32, u32))
    ensures
        r == (even_below(width), even_below(height)),
{
    assert(width & !1u32 == width - width % 2) by (bit_vector);
    assert(height & !1u32 == height - height % 2) by (bit_vector);
    (width & !1, height & !1)
}

impl Region {
    /// The rectangle cut to the frame, with even width and height.
    pub open spec fn cut_to(self, frame_w: u32, frame_h: u32) -> Region {
        let x = lesser(self.x as int, frame_w - 1) as u32;
        let y = lesser(self.y as int, frame_h - 1) as u32;
        Region {
            x,
            y,
            width: even_below(lesser(self.width as int, frame_w - x) as u32),
            height: even_below(lesser(self.height as int, frame_h - y) as u32),
        }
    }

    /// Lies within the frame and is fit for NV12.
    pub open spec fn usable_in(self, frame_w: u32, frame_h: u32) -> bool {
        &&& self.x + self.width <= frame_w
        &&& self.y + self.height <= frame_h
        &&& self.width > 0 && self.width % 2 == 0
        &&& self.height > 0 && self.height % 2 == 0
    }

    /// Cuts the rectangle to the frame; nothing where no pixel pair remains.
    pub fn clamp_to(&self, frame_w: u32, frame_h: u32) -> (r: Option<Region>)
        ensures
            r is Some <==> frame_w > 0 && frame_h > 0 && self.cut_to(frame_w, frame_h).width > 0
                && self.cut_to(frame_w, frame_h).height > 0,
            r matches Some(cut) ==> cut == self.cut_to(frame_w, frame_h) && cut.usable_in(
                frame_w,
                frame_h,
            ),
    {
        if frame_w == 0 || frame_h == 0 {
            return None;
        }
        let x: u32 = if self.x < frame_w - 1 {
            self.x
        } else {
            frame_w - 1
        };
        let y: u32 = if self.y < frame_h - 1 {
            self.y
        } else {
            frame_h - 1
        };
        let max_w: u32 = frame_w - x;
        let max_h: u32 = frame_h - y;
        let (w, h): (u32, u32) = even_dimensions(
            if self.width < max_w {
                self.width
            } else {
                max_w
            },
            if self.height < max_h {
                self.height
            } else {
                max_h
            },
        );
        if w == 0 || h == 0 {
            return None;
        }
        Some(Region { x, y, width: w, height: h })
    }

    /// The pixels of a selection that is given by two opposite corners in shares of a display.
    pub open spec fn selected(
        nx: Share,
        ny: Share,
        nw: Share,
        nh: Share,
        phys_w: u32,
        phys_h: u32,
    ) -> Region {
        let (x, width) = span_pixels(nx, nw, phys_w);
        let (y, height) = span_pixels(ny, nh, phys_h);
        Region { x, y, width, height }
    }

    /// Turns a selection into pixels; nothing where no pixel pair remains. The corners may come
    /// in any order, and may lie outside.
    pub fn from_normalized(
        nx: Share,
        ny: Share,
        nw: Share,
        nh: Share,
        phys_w: u32,
        phys_h: u32,
    ) -> (r: Option<Region>)
        ensures
            ({
                let cut = Region::selected(nx, ny, nw, nh, phys_w, phys_h).cut_to(phys_w, phys_h);
                &&& r is Some <==> phys_w > 0 && phys_h > 0 && cut.width > 0 && cut.height > 0
                &&& r matches Some(region) ==> region == cut && cut.usable_in(phys_w, phys_h)
            }),
    {
        if phys_w == 0 || phys_h == 0 {
            return None;
        }
        let (x, width): (u32, u32) = to_span(nx, nw, phys_w);
        let (y, height): (u32, u32) = to_span(ny, nh, phys_h);
        Region { x, y, width, height }.clamp_to(phys_w, phys_h)
    }

    pub fn is_full_frame(&self, frame_w: u32, frame_h: u32) -> (r: bool)
        ensures
            r == (*self == Region { x: 0, y: 0, width: frame_w, height: frame_h }),
    {
        self.x == 0 && self.y == 0 && self.width == frame_w && self.height == frame_h
    }
}

/// Opposite corners give the same selection, whichever of them comes first.
pub proof fn law_corners_can_be_exchanged(
    nx: Share,
    ny: Share,
    nw: Share,
    nh: Share,
    phys_w: u32,
    phys_h: u32,
)
    ensures
        Region::selected(nx, ny, nw, nh, phys_w, phys_h) == Region::selected(
            nw,
            nh,
            nx,
            ny,
            phys_w,
            phys_h,
        ),
{
    law_direction_does_not_matter(nx, nw, phys_w);
    law_direction_does_not_matter(ny, nh, phys_h);
}

/// A selection from beyond one corner of the display to beyond the opposite one is the display.
pub proof fn law_whole_display_can_be_selected(
    nx: Share,
    ny: Share,
    nw: Share,
    nh: Share,
    phys_w: u32,
    phys_h: u32,
)
    requires
        is_number(nx) && is_number(ny) && is_number(nw) && is_number(nh),
        limited(nx) == 0 && limited(ny) == 0,
        limited(nw) == ONE_SHARE && limited(nh) == ONE_SHARE,
    ensures
        Region::selected(nx, ny, nw, nh, phys_w, phys_h) == (Region {
            x: 0,
            y: 0,
            width: phys_w,
            height: phys_h,
        }),
{
    law_whole_span_is_the_length(nx, nw, phys_w);
    law_whole_span_is_the_length(ny, nh, phys_h);
}

/// Cutting a rectangle a second time changes nothing.
pub proof fn law_cut_is_idempotent(r: Region, frame_w: u32, frame_h: u32)
    requires
        frame_w > 0,
        frame_h > 0,
        r.cut_to(frame_w, frame_h).width > 0,
        r.cut_to(frame_w, frame_h).height > 0,
    ensures
        r.cut_to(frame_w, frame_h).cut_to(frame_w, frame_h) == r.cut_to(frame_w, frame_h),
{
}

/// A rectangle that is usable as it stands is left alone.
pub proof fn law_usable_region_is_kept(r: Region, frame_w: u32, frame_h: u32)
    requires
        r.usable_in(frame_w, frame_h),
    ensures
        r.cut_to(frame_w, frame_h) == r,
{
}

/// Read access to a BGRA image in rows of `pitch` bytes.
#[derive(Debug, Clone, Copy)]
pub struct BgraImageView<'a> {
    pub data: &'a [u8],
    /// Distance of two rows in bytes, as the mapped texture reports it.
    pub pitch: usize,
    pub width: u32,
    pub height: u32,
}

/// An NV12 image: luma rows, then rows of interleaved chroma.
#[derive(Debug)]
pub struct Nv12Image {
    pub data: Vec<u8>,
    /// Distance of two rows in this buffer.
    pub stride: usize,
    pub width: u32,
    pub height: u32,
}

/// Luma of a colour.
pub open spec fn luma(r: int, g: int, b: int) -> int {
    clamped((47 * r + 157 * g + 16 * b + 128) / 256 + 16, 16, 235)
}

/// Blue chroma of a colour.
pub open spec fn chroma_blue(r: int, g: int, b: int) -> int {
    clamped((-26 * r - 86 * g + 112 * b + 128) / 256 + 128, 16, 240)
}

/// Red chroma of a colour.
pub open spec fn chroma_red(r: int, g: int, b: int) -> int {
    clamped((112 * r - 102 * g - 10 * b + 128) / 256 + 128, 16, 240)
}

pub fn rgb_to_y(r: i32, g: i32, b: i32) -> (v: u8)
    requires
        0 <= r <= 255,
        0 <= g <= 255,
        0 <= b <= 255,
    ensures
        v == luma(r as int, g as int, b as int),
{
    let sum: u32 = (47 * r + 157 * g + 16 * b + 128) as u32;
    let v: u32 = sum / 256 + 16;
    if v > 235 {
        235
    } else {
        v as u8
    }
}

/// `x / 256` rounded down, moved by 128 and limited to 16..240.
fn centered(x: i32) -> (v: u8)
    requires
        -0x1_0000 <= x <= 0x1_0000,
    ensures
        v == clamped(x as int / 256 + 128, 16, 240),
{
    let shifted: u32 = (x + 0x1_0000) as u32 / 256;
    assert(shifted == x as int / 256 + 256);
    if shifted < 144 {
        16
    } else if shifted > 368 {
        240
    } else {
        (shifted - 128) as u8
    }
}

pub fn rgb_to_cb(r: i32, g: i32, b: i32) -> (v: u8)
    requires
        0 <= r <= 255,
        0 <= g <= 255,
        0 <= b <= 255,
    ensures
        v == chroma_blue(r as int, g as int, b as int),
{
    centered(112 * b + 128 - 26 * r - 86 * g)
}

pub fn rgb_to_cr(r: i32, g: i32, b: i32) -> (v: u8)
    requires
        0 <= r <= 255,
        0 <= g <= 255,
        0 <= b <= 255,
    ensures
        v == chroma_red(r as int, g as int, b as int),
{
    centered(112 * r - 102 * g - 10 * b + 128)
}

/// Converted colours stay within the limited range.
pub proof fn law_limited_range(r: int, g: int, b: int)
    ensures
        16 <= luma(r, g, b) <= 235,
        16 <= chroma_blue(r, g, b) <= 240,
        16 <= chroma_red(r, g, b) <= 240,
{
}

/// Grey has neutral chroma, black and white reach the ends of the luma range.
pub proof fn law_grey_is_neutral(v: int)
    requires
        0 <= v <= 255,
    ensures
        chroma_blue(v, v, v) == 128,
        chroma_red(v, v, v) == 128,
        luma(0, 0, 0) == 16,
        luma(255, 255, 255) == 235,
{
}

/// A brighter colour never gets less luma.
pub proof fn law_luma_is_monotonic(r: int, g: int, b: int, r2: int, g2: int, b2: int)
    requires
        r <= r2,
        g <= g2,
        b <= b2,
    ensures
        luma(r, g, b) <= luma(r2, g2, b2),
{
}

/// Byte `c` of the pixel at (`x`, `y`): 0 is blue, 1 green, 2 red.
pub open spec fn component(data: Seq<u8>, pitch: int, x: int, y: int, c: int) -> int {
    data[y * pitch + x * 4 + c] as int
}

/// Luma of the pixel at (`x`, `y`) of the image.
pub open spec fn luma_at(data: Seq<u8>, pitch: int, x: int, y: int) -> u8 {
    luma(
        component(data, pitch, x, y, 2),
        component(data, pitch, x, y, 1),
        component(data, pitch, x, y, 0),
    ) as u8
}

/// Mean of a component over the block of two by two pixels at (`x`, `y`).
pub open spec fn block_mean(data: Seq<u8>, pitch: int, x: int, y: int, c: int) -> int {
    (component(data, pitch, x, y, c) + component(data, pitch, x + 1, y, c) + component(
        data,
        pitch,
        x,
        y + 1,
        c,
    ) + component(data, pitch, x + 1, y + 1, c)) / 4
}

/// Chroma of the block at (`x`, `y`): the mean colour first, then its chroma.
pub open spec fn chroma_at(data: Seq<u8>, pitch: int, x: int, y: int, red: bool) -> u8 {
    let r = block_mean(data, pitch, x, y, 2);
    let g = block_mean(data, pitch, x, y, 1);
    let b = block_mean(data, pitch, x, y, 0);
    if red {
        chroma_red(r, g, b) as u8
    } else {
        chroma_blue(r, g, b) as u8
    }
}

/// The luma plane of a region, row after row.
pub open spec fn luma_plane(data: Seq<u8>, pitch: int, region: Region) -> Seq<u8> {
    let w = region.width as int;
    Seq::new(
        (region.width * region.height) as nat,
        |k: int| luma_at(data, pitch, region.x + k % w, region.y + k / w),
    )
}

/// The chroma plane of a region: one row for two rows of pixels, blue and red in turn.
pub open spec fn chroma_plane(data: Seq<u8>, pitch: int, region: Region) -> Seq<u8> {
    let w = region.width as int;
    Seq::new(
        (region.width * (region.height / 2)) as nat,
        |k: int|
            chroma_at(
                data,
                pitch,
                region.x + (k % w) / 2 * 2,
                region.y + k / w * 2,
                (k % w) % 2 == 1,
            ),
    )
}

/// Bytes up to the last pixel of the region.
pub open spec fn bytes_needed(pitch: int, region: Region) -> int {
    (region.y + region.height - 1) * pitch + (region.x + region.width) * 4
}

/// Why a region of an image cannot be converted, or nothing where it can.
pub open spec fn conversion_obstacle(view: BgraImageView<'_>, region: Region) -> Option<Seq<char>> {
    let w = region.width;
    let h = region.height;
    if w == 0 || h == 0 {
        Some("尺寸非法："@ + decimal(w as nat) + "x"@ + decimal(h as nat))
    } else if w % 2 != 0 || h % 2 != 0 {
        Some(
            "NV12 需要偶数宽高，实际 "@ + decimal(w as nat) + "x"@ + decimal(h as nat)
                + "（调用方需先裁剪）"@,
        )
    } else if region.x + w > view.width || region.y + h > view.height {
        Some(
            "区域 "@ + decimal(w as nat) + "x"@ + decimal(h as nat) + "+("@ + decimal(
                region.x as nat,
            ) + ","@ + decimal(region.y as nat) + ") 超出画幅 "@ + decimal(view.width as nat) + "x"@
                + decimal(view.height as nat),
        )
    } else if view.pitch < view.width * 4 {
        Some(
            "pitch "@ + decimal(view.pitch as nat) + " 小于整幅宽度所需 "@ + decimal(
                (view.width * 4) as nat,
            ),
        )
    } else if view.data@.len() < bytes_needed(view.pitch as int, region) {
        Some(
            "缓冲不足：需要 "@ + decimal(bytes_needed(view.pitch as int, region) as nat) + " 字节，实际 "@
                + decimal(view.data@.len()),
        )
    } else {
        None
    }
}

/// The image is the conversion of the region.
pub open spec fn converted(view: BgraImageView<'_>, region: Region, image: Nv12Image) -> bool {
    &&& image.width == region.width
    &&& image.height == region.height
    &&& image.stride == region.width
    &&& image.data@ == luma_plane(view.data@, view.pitch as int, region) + chroma_plane(
        view.data@,
        view.pitch as int,
        region,
    )
}

/// Converts a whole image.
pub fn bgra_to_nv12(view: &BgraImageView<'_>) -> (r: MediaResult<Nv12Image>)
    ensures
        ({
            let full = Region { x: 0, y: 0, width: view.width, height: view.height };
            match r {
                Ok(image) => conversion_obstacle(*view, full) is None && converted(
                    *view,
                    full,
                    image,
                ),
                Err(e) => e matches MediaError::FrameConversionFailed { reason } && Some(reason@)
                    == conversion_obstacle(*view, full),
            }
        }),
{
    bgra_to_nv12_region(view, Region { x: 0, y: 0, width: view.width, height: view.height })
}

proof fn lemma_pixel_in_bounds(
    pitch: int,
    x0: int,
    y0: int,
    w: int,
    h: int,
    x: int,
    y: int,
    len: int,
)
    requires
        0 <= x0,
        0 <= y0,
        0 <= x < w,
        0 <= y < h,
        0 <= pitch,
        (y0 + h - 1) * pitch + (x0 + w) * 4 <= len,
    ensures
        0 <= (y0 + y) * pitch,
        (y0 + y) * pitch + (x0 + x) * 4 + 4 <= len,
{
    assert(0 <= (y0 + y) * pitch <= (y0 + h - 1) * pitch) by (nonlinear_arith)
        requires
            0 <= y0 + y <= y0 + h - 1,
            0 <= pitch,
    ;
}

proof fn lemma_row_and_column(w: int, y: int, x: int)
    requires
        0 <= x < w,
        0 <= y,
    ensures
        (y * w + x) / w == y,
        (y * w + x) % w == x,
{
    vstd::arithmetic::div_mod::lemma_fundamental_div_mod_converse(y * w + x, w, y, x);
}

/// Appends the luma plane of a region.
#[verifier::spinoff_prover]
fn push_luma(view: &BgraImageView<'_>, region: Region, out: &mut Vec<u8>)
    requires
        conversion_obstacle(*view, region) is None,
        old(out)@ == Seq::<u8>::empty(),
        region.width * region.height <= usize::MAX,
    ensures
        final(out)@ == luma_plane(view.data@, view.pitch as int, region),
{
    let len: usize = view.data.len();
    let w: usize = region.width as usize;
    let h: usize = region.height as usize;
    let x0: usize = region.x as usize;
    let y0: usize = region.y as usize;
    let ghost plane = luma_plane(view.data@, view.pitch as int, region);
    let mut y: usize = 0;
    while y < h
        invariant
            y <= h,
            w == region.width,
            h == region.height,
            x0 == region.x,
            y0 == region.y,
            w > 0,
            len == view.data@.len(),
            bytes_needed(view.pitch as int, region) <= len,
            region.x + region.width <= u32::MAX,
            region.y + region.height <= u32::MAX,
            plane == luma_plane(view.data@, view.pitch as int, region),
            y * w <= plane.len(),
            out@ == plane.take(y * w),
        decreases h - y,
    {
        proof {
            lemma_pixel_in_bounds(
                view.pitch as int,
                x0 as int,
                y0 as int,
                w as int,
                h as int,
                0,
                y as int,
                len as int,
            );
            assert((y + 1) * w == y * w + w) by (nonlinear_arith);
            assert((y + 1) * w <= h * w) by (nonlinear_arith)
                requires
                    y + 1 <= h,
                    w > 0,
            ;
            assert(h * w == region.width * region.height) by (nonlinear_arith)
                requires
                    w == region.width,
                    h == region.height,
            ;
        }
        let row: usize = (y0 + y) * view.pitch;
        let mut x: usize = 0;
        while x < w
            invariant
                x <= w,
                y < h,
                w == region.width,
                h == region.height,
                x0 == region.x,
                y0 == region.y,
                row == (y0 + y) * view.pitch,
                len == view.data@.len(),
            bytes_needed(view.pitch as int, region) <= len,
                region.x + region.width <= u32::MAX,
                plane == luma_plane(view.data@, view.pitch as int, region),
                0 <= y * w,
                y * w + w <= plane.len(),
                out@ == plane.take(y * w + x),
            decreases w - x,
        {
            proof {
                lemma_pixel_in_bounds(
                    view.pitch as int,
                    x0 as int,
                    y0 as int,
                    w as int,
                    h as int,
                    x as int,
                    y as int,
                    len as int,
                );
                lemma_row_and_column(w as int, y as int, x as int);
            }
            let at: usize = row + (x0 + x) * 4;
            let b: i32 = view.data[at] as i32;
            let g: i32 = view.data[at + 1] as i32;
            let r: i32 = view.data[at + 2] as i32;
            out.push(rgb_to_y(r, g, b));
            assert(out@ == plane.take(y * w + x + 1)) by {
                assert(plane[y * w + x] == luma_at(view.data@, view.pitch as int, x0 + x, y0 + y));
            }
            x = x + 1;
        }
        y = y + 1;
    }
    proof {
        assert(h * w == region.width * region.height) by (nonlinear_arith)
            requires
                w == region.width,
                h == region.height,
        ;
        assert(plane.take(plane.len() as int) == plane);
    }
}

/// Reads one component of the block at byte `top` and the row below it.
fn mean_of_block(data: &[u8], top: usize, below: usize) -> (v: i32)
    requires
        top + 4 < data.len(),
        below + 4 < data.len(),
    ensures
        v == (data@[top as int] + data@[top + 4] + data@[below as int] + data@[below + 4]) / 4,
        0 <= v <= 255,
{
    let sum: u32 = data[top] as u32 + data[top + 4] as u32 + data[below] as u32
        + data[below + 4] as u32;
    (sum / 4) as i32
}

/// Appends the chroma plane of a region.
#[verifier::rlimit(60)]
#[verifier::spinoff_prover]
fn push_chroma(view: &BgraImageView<'_>, region: Region, out: &mut Vec<u8>)
    requires
        conversion_obstacle(*view, region) is None,
        region.width * region.height <= usize::MAX,
    ensures
        final(out)@ == old(out)@ + chroma_plane(view.data@, view.pitch as int, region),
{
    let len: usize = view.data.len();
    let w: usize = region.width as usize;
    let h: usize = region.height as usize;
    let x0: usize = region.x as usize;
    let y0: usize = region.y as usize;
    let ghost before = out@;
    let ghost plane = chroma_plane(view.data@, view.pitch as int, region);
    proof {
        assert(out@ == before + plane.take(0));
        assert(0 <= w * (h / 2)) by (nonlinear_arith);
    }
    let mut j: usize = 0;
    while j < h / 2
        invariant
            j <= h / 2,
            w == region.width,
            h == region.height,
            x0 == region.x,
            y0 == region.y,
            w > 0,
            w % 2 == 0,
            h % 2 == 0,
            len == view.data@.len(),
            bytes_needed(view.pitch as int, region) <= len,
            region.x + region.width <= u32::MAX,
            region.y + region.height <= u32::MAX,
            plane == chroma_plane(view.data@, view.pitch as int, region),
            0 <= j * w <= plane.len(),
            out@ == before + plane.take(j * w),
        decreases h / 2 - j,
    {
        proof {
            lemma_pixel_in_bounds(
                view.pitch as int,
                x0 as int,
                y0 as int,
                w as int,
                h as int,
                0,
                2 * j,
                len as int,
            );
            lemma_pixel_in_bounds(
                view.pitch as int,
                x0 as int,
                y0 as int,
                w as int,
                h as int,
                0,
                2 * j + 1,
                len as int,
            );
            assert((j + 1) * w == j * w + w) by (nonlinear_arith);
            assert((j + 1) * w <= (h / 2) * w) by (nonlinear_arith)
                requires
                    j + 1 <= h / 2,
                    w > 0,
            ;
            assert((h / 2) * w == region.width * (region.height / 2)) by (nonlinear_arith)
                requires
                    w == region.width,
                    h == region.height,
            ;
        }
        let top_row: usize = (y0 + 2 * j) * view.pitch;
        let below_row: usize = (y0 + 2 * j + 1) * view.pitch;
        let mut i: usize = 0;
        while i < w / 2
            invariant
                i <= w / 2,
                j < h / 2,
                w == region.width,
                h == region.height,
                w % 2 == 0,
                h % 2 == 0,
                x0 == region.x,
                y0 == region.y,
                top_row == (y0 + 2 * j) * view.pitch,
                below_row == (y0 + 2 * j + 1) * view.pitch,
                len == view.data@.len(),
            bytes_needed(view.pitch as int, region) <= len,
                region.x + region.width <= u32::MAX,
                plane == chroma_plane(view.data@, view.pitch as int, region),
                0 <= j * w,
                j * w + w <= plane.len(),
                out@ == before + plane.take(j * w + 2 * i),
            decreases w / 2 - i,
        {
            proof {
                lemma_pixel_in_bounds(
                    view.pitch as int,
                    x0 as int,
                    y0 as int,
                    w as int,
                    h as int,
                    2 * i + 1,
                    2 * j,
                    len as int,
                );
                lemma_pixel_in_bounds(
                    view.pitch as int,
                    x0 as int,
                    y0 as int,
                    w as int,
                    h as int,
                    2 * i + 1,
                    2 * j + 1,
                    len as int,
                );
                lemma_row_and_column(w as int, j as int, 2 * i);
                lemma_row_and_column(w as int, j as int, 2 * i + 1);
            }
            let top: usize = top_row + (x0 + 2 * i) * 4;
            let below: usize = below_row + (x0 + 2 * i) * 4;
            let b: i32 = mean_of_block(view.data, top, below);
            let g: i32 = mean_of_block(view.data, top + 1, below + 1);
            let r: i32 = mean_of_block(view.data, top + 2, below + 2);
            out.push(rgb_to_cb(r, g, b));
            out.push(rgb_to_cr(r, g, b));
            proof {
                let k = j * w + 2 * i;
                assert(plane[k] == chroma_at(
                    view.data@,
                    view.pitch as int,
                    x0 + 2 * i,
                    y0 + 2 * j,
                    false,
                ));
                assert(plane[k + 1] == chroma_at(
                    view.data@,
                    view.pitch as int,
                    x0 + 2 * i,
                    y0 + 2 * j,
                    true,
                ));
                assert(out@ == before + plane.take(k + 2));
            }
            i = i + 1;
        }
        j = j + 1;
    }
    proof {
        assert((h / 2) * w == region.width * (region.height / 2)) by (nonlinear_arith)
            requires
                w == region.width,
                h == region.height,
        ;
        assert(plane.take(plane.len() as int) == plane);
    }
}

/// Converts a region of an image. Zero or odd sizes, regions outside the image, rows too short
/// for the image and buffers that end too early are refused, in this order.
pub fn bgra_to_nv12_region(view: &BgraImageView<'_>, region: Region) -> (r: MediaResult<Nv12Image>)
    ensures
        match r {
            Ok(image) => conversion_obstacle(*view, region) is None && converted(
                *view,
                region,
                image,
            ),
            Err(e) => e matches MediaError::FrameConversionFailed { reason } && Some(reason@)
                == conversion_obstacle(*view, region),
        },
{
    let w: u64 = region.width as u64;
    let h: u64 = region.height as u64;
    let x0: u64 = region.x as u64;
    let y0: u64 = region.y as u64;
    if w == 0 || h == 0 {
        let mut reason: String = String::from_str("尺寸非法：");
        push_decimal(&mut reason, w);
        reason.append("x");
        push_decimal(&mut reason, h);
        return Err(MediaError::FrameConversionFailed { reason });
    }
    if w % 2 != 0 || h % 2 != 0 {
        let mut reason: String = String::from_str("NV12 需要偶数宽高，实际 ");
        push_decimal(&mut reason, w);
        reason.append("x");
        push_decimal(&mut reason, h);
        reason.append("（调用方需先裁剪）");
        return Err(MediaError::FrameConversionFailed { reason });
    }
    if x0 + w > view.width as u64 || y0 + h > view.height as u64 {
        let mut reason: String = String::from_str("区域 ");
        push_decimal(&mut reason, w);
        reason.append("x");
        push_decimal(&mut reason, h);
        reason.append("+(");
        push_decimal(&mut reason, x0);
        reason.append(",");
        push_decimal(&mut reason, y0);
        reason.append(") 超出画幅 ");
        push_decimal(&mut reason, view.width as u64);
        reason.append("x");
        push_decimal(&mut reason, view.height as u64);
        return Err(MediaError::FrameConversionFailed { reason });
    }
    let row_bytes: u64 = view.width as u64 * 4;
    if (view.pitch as u64) < row_bytes {
        let mut reason: String = String::from_str("pitch ");
        push_decimal(&mut reason, view.pitch as u64);
        reason.append(" 小于整幅宽度所需 ");
        push_decimal(&mut reason, row_bytes);
        return Err(MediaError::FrameConversionFailed { reason });
    }
    assert(0 <= (y0 + h - 1) * view.pitch <= 0x1_ffff_ffff * 0xffff_ffff_ffff_ffff)
        by (nonlinear_arith)
        requires
            0 <= y0 + h - 1 <= 0x1_ffff_ffff,
            0 <= view.pitch <= 0xffff_ffff_ffff_ffff,
    ;
    let needed: u128 = (y0 + h - 1) as u128 * view.pitch as u128 + (x0 + w) as u128 * 4;
    if (view.data.len() as u128) < needed {
        let mut reason: String = String::from_str("缓冲不足：需要 ");
        push_wide_decimal(&mut reason, needed);
        reason.append(" 字节，实际 ");
        push_decimal(&mut reason, view.data.len() as u64);
        return Err(MediaError::FrameConversionFailed { reason });
    }
    assert(4 * (w * h) <= needed) by (nonlinear_arith)
        requires
            needed == (y0 + h - 1) * view.pitch + (x0 + w) * 4,
            view.pitch >= 4 * w,
            0 <= y0,
            1 <= h,
            0 <= x0,
            0 <= w,
    ;
    let mut data: Vec<u8> = Vec::new();
    push_luma(view, region, &mut data);
    push_chroma(view, region, &mut data);
    Ok(Nv12Image { data, stride: region.width as usize, width: region.width, height: region.height })
}

/// Only the colours within the region matter: alpha bytes, padding behind the rows and pixels
/// outside the region leave no trace in the image.
pub proof fn law_only_colours_matter(a: Seq<u8>, b: Seq<u8>, pitch: int, region: Region)
    requires
        region.width > 0,
        region.width % 2 == 0,
        region.height % 2 == 0,
        forall|x: int, y: int, c: int|
            region.x <= x < region.x + region.width && region.y <= y < region.y + region.height
                && 0 <= c < 3 ==> #[trigger] component(a, pitch, x, y, c) == component(
                b,
                pitch,
                x,
                y,
                c,
            ),
    ensures
        luma_plane(a, pitch, region) =~= luma_plane(b, pitch, region),
        chroma_plane(a, pitch, region) =~= chroma_plane(b, pitch, region),
{
    let w = region.width as int;
    assert forall|k: int| 0 <= k < region.width * region.height implies luma_plane(
        a,
        pitch,
        region,
    )[k] == luma_plane(b, pitch, region)[k] by {
        lemma_within_rows(k, w, region.height as int);
    }
    assert forall|k: int| 0 <= k < region.width * (region.height / 2) implies chroma_plane(
        a,
        pitch,
        region,
    )[k] == chroma_plane(b, pitch, region)[k] by {
        lemma_within_rows(k, w, (region.height / 2) as int);
        let x = region.x + (k % w) / 2 * 2;
        let y = region.y + k / w * 2;
        assert forall|c: int| 0 <= c < 3 implies #[trigger] block_mean(a, pitch, x, y, c)
            == block_mean(b, pitch, x, y, c) by {
            assert(component(a, pitch, x, y, c) == component(b, pitch, x, y, c));
            assert(component(a, pitch, x + 1, y, c) == component(b, pitch, x + 1, y, c));
            assert(component(a, pitch, x, y + 1, c) == component(b, pitch, x, y + 1, c));
            assert(component(a, pitch, x + 1, y + 1, c) == component(b, pitch, x + 1, y + 1, c));
        }
    }
}

proof fn lemma_within_rows(k: int, w: int, h: int)
    requires
        0 <= k < w * h,
        w > 0,
        h >= 0,
    ensures
        0 <= k % w < w,
        0 <= k / w < h,
{
    vstd::arithmetic::div_mod::lemma_mod_bound(k, w);
    vstd::arithmetic::div_mod::lemma_div_pos_is_pos(k, w);
    assert(h * w == w * h) by (nonlinear_arith);
    vstd::arithmetic::div_mod::lemma_div_by_multiple_is_strongly_ordered(k, w * h, h, w);
    vstd::arithmetic::div_mod::lemma_div_multiples_vanish(h, w);
}

} // verus!
