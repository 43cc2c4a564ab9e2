//! The converted picture, byte by byte: where each pixel of a region ends up, and what colours
//! become.

use crate::convert::{
    block_mean, chroma_blue, chroma_red, component, conversion_obstacle, converted, even_below,
    luma, BgraImageView, Nv12Image, Region,
};
use crate::share::{
    is_number, law_whole_span_is_the_length, limited, span_pixels, Share, ONE_SHARE,
};
use vstd::prelude::*;

verus! {

/// Luma weighs the three colours: 256 times its distance from black is the weighted sum of red,
/// green and blue, to within half of one step.
pub proof fn law_luma_weighs_the_colours(r: int, g: int, b: int)
    requires
        0 <= r <= 255,
        0 <= g <= 255,
        0 <= b <= 255,
    ensures
        -128 <= 47 * r + 157 * g + 16 * b - 256 * (luma(r, g, b) - 16) < 128,
{
}

/// Chroma weighs the difference of blue, or of red, from the other colours, to within half of one
/// step.
pub proof fn law_chroma_weighs_the_colours(r: int, g: int, b: int)
    requires
        0 <= r <= 255,
        0 <= g <= 255,
        0 <= b <= 255,
    ensures
        -128 <= 112 * b - 26 * r - 86 * g - 256 * (chroma_blue(r, g, b) - 128) < 128,
        -128 <= 112 * r - 102 * g - 10 * b - 256 * (chroma_red(r, g, b) - 128) < 128,
{
}

proof fn lemma_position(w: int, h: int, x: int, y: int)
    requires
        0 <= x < w,
        0 <= y < h,
    ensures
        0 <= y * w + x < w * h,
        (y * w + x) / w == y,
        (y * w + x) % w == x,
{
    assert(y * w + x < w * h) by (nonlinear_arith)
        requires
            0 <= x < w,
            0 <= y,
            y + 1 <= h,
    ;
    assert(0 <= y * w) by (nonlinear_arith)
        requires
            0 <= y,
            0 < w,
    ;
    vstd::arithmetic::div_mod::lemma_fundamental_div_mod_converse(y * w + x, w, y, x);
}

/// The picture has the size of the region: its luma rows follow each other without a gap, and
/// behind them come half as many rows of chroma.
pub proof fn law_picture_has_the_size_of_the_region(
    view: BgraImageView<'_>,
    region: Region,
    image: Nv12Image,
)
    requires
        conversion_obstacle(view, region) is None,
        converted(view, region, image),
    ensures
        image.width == region.width,
        image.height == region.height,
        image.stride == region.width,
        2 * image.data@.len() == 3 * (region.width * region.height),
{
    let w = region.width as int;
    let h = region.height as int;
    let half = h / 2;
    assert(2 * (w * half) == w * h) by (nonlinear_arith)
        requires
            h == 2 * half,
    ;
    assert(w * h >= 0) by (nonlinear_arith)
        requires
            w >= 0,
            h >= 0,
    ;
    assert(w * half >= 0) by (nonlinear_arith)
        requires
            w >= 0,
            half >= 0,
    ;
}

/// Each pixel keeps its place: row `y`, column `x` of the picture is the luma of the pixel that
/// lies `x` to the right and `y` below the region's corner.
pub proof fn law_pixels_keep_their_place(
    view: BgraImageView<'_>,
    region: Region,
    image: Nv12Image,
    x: int,
    y: int,
)
    requires
        conversion_obstacle(view, region) is None,
        converted(view, region, image),
        0 <= x < region.width,
        0 <= y < region.height,
    ensures
        ({
            let at = (region.y + y) * view.pitch + (region.x + x) * 4;
            let data = view.data@;
            image.data@[y * region.width + x] == luma(
                data[at + 2] as int,
                data[at + 1] as int,
                data[at] as int,
            )
        }),
{
    let w = region.width as int;
    let h = region.height as int;
    lemma_position(w, h, x, y);
    crate::convert::law_limited_range(
        component(view.data@, view.pitch as int, region.x + x, region.y + y, 2),
        component(view.data@, view.pitch as int, region.x + x, region.y + y, 1),
        component(view.data@, view.pitch as int, region.x + x, region.y + y, 0),
    );
    assert(image.data@[y * w + x] == crate::convert::luma_plane(
        view.data@,
        view.pitch as int,
        region,
    )[y * w + x]);
}

/// Each pair of chroma bytes belongs to the block of two by two pixels at its place: pair `i` of
/// chroma row `j` to the block that starts `2 * i` to the right and `2 * j` below the region's
/// corner, blue first. The colours of a block are averaged before they are weighed.
pub proof fn law_blocks_keep_their_place(
    view: BgraImageView<'_>,
    region: Region,
    image: Nv12Image,
    i: int,
    j: int,
)
    requires
        conversion_obstacle(view, region) is None,
        converted(view, region, image),
        0 <= i < region.width / 2,
        0 <= j < region.height / 2,
    ensures
        ({
            let data = view.data@;
            let top = (region.y + 2 * j) * view.pitch + (region.x + 2 * i) * 4;
            let below = top + view.pitch;
            let b = (data[top] + data[top + 4] + data[below] + data[below + 4]) / 4;
            let g = (data[top + 1] + data[top + 5] + data[below + 1] + data[below + 5]) / 4;
            let r = (data[top + 2] + data[top + 6] + data[below + 2] + data[below + 6]) / 4;
            let at = region.width * region.height + j * region.width + 2 * i;
            &&& image.data@[at] == chroma_blue(r, g, b)
            &&& image.data@[at + 1] == chroma_red(r, g, b)
        }),
{
    let w = region.width as int;
    let h = region.height as int;
    let pitch = view.pitch as int;
    let data = view.data@;
    let half = h / 2;
    lemma_position(w, half, 2 * i, j);
    lemma_position(w, half, 2 * i + 1, j);
    let x = region.x + 2 * i;
    let y = region.y + 2 * j;
    assert((y + 1) * pitch == y * pitch + pitch) by (nonlinear_arith);
    assert(w * h >= 0) by (nonlinear_arith)
        requires
            w >= 0,
            h >= 0,
    ;
    let luma_bytes = crate::convert::luma_plane(data, pitch, region);
    let chroma_bytes = crate::convert::chroma_plane(data, pitch, region);
    let k = j * w + 2 * i;
    assert(image.data@[w * h + k] == chroma_bytes[k]);
    assert(image.data@[w * h + k + 1] == chroma_bytes[k + 1]);
    assert((k % w) / 2 * 2 == 2 * i && ((k + 1) % w) / 2 * 2 == 2 * i);
    let top = y * pitch + x * 4;
    let below = top + pitch;
    assert(block_mean(data, pitch, x, y, 0) == (data[top] + data[top + 4] + data[below] + data[below
        + 4]) / 4);
    assert(block_mean(data, pitch, x, y, 1) == (data[top + 1] + data[top + 5] + data[below + 1]
        + data[below + 5]) / 4);
    assert(block_mean(data, pitch, x, y, 2) == (data[top + 2] + data[top + 6] + data[below + 2]
        + data[below + 6]) / 4);
    crate::convert::law_limited_range(
        block_mean(data, pitch, x, y, 2),
        block_mean(data, pitch, x, y, 1),
        block_mean(data, pitch, x, y, 0),
    );
}

/// A change of one pixel stays where it is: two pictures of the same region whose sources differ
/// in the pixel at (`px`, `py`) only have the same luma everywhere else.
pub proof fn law_a_pixel_changes_its_own_luma_only(
    a: BgraImageView<'_>,
    b: BgraImageView<'_>,
    region: Region,
    first: Nv12Image,
    second: Nv12Image,
    px: int,
    py: int,
    x: int,
    y: int,
)
    requires
        conversion_obstacle(a, region) is None,
        conversion_obstacle(b, region) is None,
        converted(a, region, first),
        converted(b, region, second),
        a.pitch == b.pitch,
        0 <= x < region.width,
        0 <= y < region.height,
        x != px || y != py,
        forall|u: int, v: int, c: int|
            0 <= u < region.width && 0 <= v < region.height && (u != px || v != py) && 0 <= c < 3
                ==> #[trigger] component(
                a.data@,
                a.pitch as int,
                region.x + u,
                region.y + v,
                c,
            ) == component(b.data@, b.pitch as int, region.x + u, region.y + v, c),
    ensures
        first.data@[y * region.width + x] == second.data@[y * region.width + x],
{
    law_pixels_keep_their_place(a, region, first, x, y);
    law_pixels_keep_their_place(b, region, second, x, y);
    let p = a.pitch as int;
    assert(component(a.data@, p, region.x + x, region.y + y, 0) == component(
        b.data@,
        p,
        region.x + x,
        region.y + y,
        0,
    ));
    assert(component(a.data@, p, region.x + x, region.y + y, 1) == component(
        b.data@,
        p,
        region.x + x,
        region.y + y,
        1,
    ));
    assert(component(a.data@, p, region.x + x, region.y + y, 2) == component(
        b.data@,
        p,
        region.x + x,
        region.y + y,
        2,
    ));
}

/// A region can be converted exactly where it is made of whole blocks, lies within the image, and
/// the rows and the buffer reach to its last pixel.
pub proof fn law_complete_regions_can_be_converted(view: BgraImageView<'_>, region: Region)
    ensures
        conversion_obstacle(view, region) is None <==> {
            &&& 0 < region.width && region.width % 2 == 0
            &&& 0 < region.height && region.height % 2 == 0
            &&& region.x + region.width <= view.width
            &&& region.y + region.height <= view.height
            &&& 4 * view.width <= view.pitch
            &&& (region.y + region.height - 1) * view.pitch + (region.x + region.width) * 4
                <= view.data@.len()
        },
{
}

/// A rectangle is cut to what is left of it within the frame: the cut starts where the rectangle
/// starts, reaches beyond neither of the two, and no further column or row pair would fit.
pub proof fn law_cut_is_the_largest_part(r: Region, frame_w: u32, frame_h: u32)
    requires
        r.x < frame_w,
        r.y < frame_h,
    ensures
        ({
            let c = r.cut_to(frame_w, frame_h);
            &&& c.x == r.x && c.y == r.y
            &&& c.width <= r.width && c.x + c.width <= frame_w && c.width % 2 == 0
            &&& c.height <= r.height && c.y + c.height <= frame_h && c.height % 2 == 0
            &&& c.width + 2 > r.width || c.x + c.width + 2 > frame_w
            &&& c.height + 2 > r.height || c.y + c.height + 2 > frame_h
        }),
{
}

/// A rectangle that starts beyond the frame is moved to the frame's last column or row, where no
/// pair is left.
pub proof fn law_nothing_is_left_beyond_the_frame(r: Region, frame_w: u32, frame_h: u32)
    requires
        frame_w > 0,
        frame_h > 0,
        r.x >= frame_w || r.y >= frame_h,
    ensures
        r.cut_to(frame_w, frame_h).width == 0 || r.cut_to(frame_w, frame_h).height == 0,
{
}

/// Sizes are cropped by one column or row at most, and then even.
pub proof fn law_cropped_sizes_are_even(n: u32)
    ensures
        even_below(n) % 2 == 0,
        even_below(n) <= n < even_below(n) + 2,
{
}

/// The two axes of a selection do not mix: where it lies from left to right depends on the
/// horizontal shares and the width of the display alone, and where it lies from top to bottom on
/// the vertical shares and the height alone.
pub proof fn law_axes_do_not_mix(
    nx: Share,
    ny: Share,
    nw: Share,
    nh: Share,
    phys_w: u32,
    phys_h: u32,
    other: (Share, Share),
    length: u32,
)
    ensures
        ({
            let here = Region::selected(nx, ny, nw, nh, phys_w, phys_h);
            let across = Region::selected(nx, other.0, nw, other.1, phys_w, length);
            let along = Region::selected(other.0, ny, other.1, nh, length, phys_h);
            &&& here.x == across.x && here.width == across.width
            &&& here.y == along.y && here.height == along.height
            &&& (here.x, here.width) == span_pixels(nx, nw, phys_w)
            &&& (here.y, here.height) == span_pixels(ny, nh, phys_h)
        }),
{
}

/// Turning the display by its diagonal turns the selection with it.
pub proof fn law_selection_turns_with_the_display(
    nx: Share,
    ny: Share,
    nw: Share,
    nh: Share,
    phys_w: u32,
    phys_h: u32,
)
    ensures
        ({
            let here = Region::selected(nx, ny, nw, nh, phys_w, phys_h);
            let turned = Region::selected(ny, nx, nh, nw, phys_h, phys_w);
            &&& turned.x == here.y && turned.width == here.height
            &&& turned.y == here.x && turned.height == here.width
        }),
{
}

/// A selection over the whole width takes all columns, whatever its rows are; one over the whole
/// height takes all rows, whatever its columns are.
pub proof fn law_whole_axis_can_be_selected(
    low: Share,
    high: Share,
    other: (Share, Share),
    phys_w: u32,
    phys_h: u32,
)
    requires
        is_number(low) && is_number(high),
        limited(low) == 0,
        limited(high) == ONE_SHARE,
    ensures
        ({
            let columns = Region::selected(low, other.0, high, other.1, phys_w, phys_h);
            let rows = Region::selected(other.0, low, other.1, high, phys_w, phys_h);
            &&& columns.x == 0 && columns.width == phys_w
            &&& rows.y == 0 && rows.height == phys_h
        }),
{
    law_whole_span_is_the_length(low, high, phys_w);
    law_whole_span_is_the_length(low, high, phys_h);
}

} // verus!
