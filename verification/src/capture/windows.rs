//! Windows that a selection can snap to.

use crate::text::{decode_utf16, trim, trimmed, utf16_text};
use vstd::prelude::*;

verus! {

/// Smaller windows, such as floating tool bars, are not offered.
pub const MIN_SNAP_WIDTH: i64 = 80;

pub const MIN_SNAP_HEIGHT: i64 = 60;

/// A window on the desktop.
#[derive(Debug)]
pub struct RawWindow {
    pub title: String,
    pub x: i32,
    pub y: i32,
    pub w: i32,
    pub h: i32,
}

/// What the system says about a window.
#[derive(Debug, Clone, Copy)]
pub struct WindowFacts {
    pub visible: bool,
    /// Length of the title as announced; the title itself may be shorter.
    pub title_len: i32,
    /// The window belongs to this program.
    pub own: bool,
    pub left: i32,
    pub top: i32,
    pub right: i32,
    pub bottom: i32,
}

/// A window can be snapped to: visible, with a title, of another program, and not too small.
pub open spec fn snappable(f: WindowFacts) -> bool {
    &&& f.visible
    &&& f.title_len > 0
    &&& !f.own
    &&& f.right - f.left >= MIN_SNAP_WIDTH
    &&& f.bottom - f.top >= MIN_SNAP_HEIGHT
}

/// Takes a window into the list, or leaves it out. A title of nothing but white space counts as
/// none.
pub fn snap_candidate(f: WindowFacts, title: &[u16]) -> (r: Option<RawWindow>)
    requires
        f.right - f.left <= i32::MAX,
        f.bottom - f.top <= i32::MAX,
    ensures
        r is Some <==> snappable(f) && trimmed(utf16_text(title@)).len() > 0,
        r matches Some(w) ==> {
            &&& w.title@ == utf16_text(title@)
            &&& w.x == f.left
            &&& w.y == f.top
            &&& w.w == f.right - f.left
            &&& w.h == f.bottom - f.top
        },
{
    if !f.visible || f.title_len <= 0 || f.own {
        return None;
    }
    let w: i64 = f.right as i64 - f.left as i64;
    let h: i64 = f.bottom as i64 - f.top as i64;
    if w < MIN_SNAP_WIDTH || h < MIN_SNAP_HEIGHT {
        return None;
    }
    let text: String = decode_utf16(title);
    let bare: String = trim(text.as_str());
    if bare.as_str().is_empty() {
        return None;
    }
    Some(RawWindow { title: text, x: f.left, y: f.top, w: w as i32, h: h as i32 })
}

/// The part of a window that lies on the display, in pixels of the display.
#[derive(Debug)]
pub struct WindowBox {
    pub title: String,
    pub left: u32,
    pub top: u32,
    pub right: u32,
    pub bottom: u32,
}

/// `v` moved into the display.
pub open spec fn onto(v: int, size: u32) -> u32 {
    if v < 0 {
        0
    } else if v > size {
        size
    } else {
        v as u32
    }
}

fn move_onto(v: i64, size: u32) -> (r: u32)
    ensures
        r == onto(v as int, size),
{
    if v < 0 {
        0
    } else if v > size as i64 {
        size
    } else {
        v as u32
    }
}

/// The box of a window.
pub open spec fn boxed(w: RawWindow, phys_w: u32, phys_h: u32, b: WindowBox) -> bool {
    &&& b.title@ == w.title@
    &&& b.left == onto(w.x as int, phys_w)
    &&& b.top == onto(w.y as int, phys_h)
    &&& b.right == onto(w.x + w.w, phys_w)
    &&& b.bottom == onto(w.y + w.h, phys_h)
}

/// Something of the window lies on the display.
pub open spec fn on_display(w: RawWindow, phys_w: u32, phys_h: u32) -> bool {
    &&& onto(w.x as int, phys_w) < onto(w.x + w.w, phys_w)
    &&& onto(w.y as int, phys_h) < onto(w.y + w.h, phys_h)
}

/// The windows of which something lies on the display.
pub open spec fn displayed(raw: Seq<RawWindow>, phys_w: u32, phys_h: u32) -> Seq<RawWindow>
    decreases raw.len(),
{
    if raw.len() == 0 {
        Seq::empty()
    } else if on_display(raw.last(), phys_w, phys_h) {
        displayed(raw.drop_last(), phys_w, phys_h).push(raw.last())
    } else {
        displayed(raw.drop_last(), phys_w, phys_h)
    }
}

/// The windows that a selection can snap to, cut to the display. A display without a size has
/// none.
pub fn list_top_level_windows(raw: &Vec<RawWindow>, phys_w: u32, phys_h: u32) -> (out: Vec<
    WindowBox,
>)
    ensures
        out.len() == displayed(raw@, phys_w, phys_h).len(),
        forall|i: int|
            0 <= i < out.len() ==> boxed(
                displayed(raw@, phys_w, phys_h)[i],
                phys_w,
                phys_h,
                #[trigger] out@[i],
            ),
{
    let mut out: Vec<WindowBox> = Vec::new();
    let mut i: usize = 0;
    while i < raw.len()
        invariant
            i <= raw.len(),
            out.len() == displayed(raw@.take(i as int), phys_w, phys_h).len(),
            forall|j: int|
                0 <= j < out.len() ==> boxed(
                    displayed(raw@.take(i as int), phys_w, phys_h)[j],
                    phys_w,
                    phys_h,
                    #[trigger] out@[j],
                ),
        decreases raw.len() - i,
    {
        assert(raw@.take(i + 1).drop_last() =~= raw@.take(i as int));
        let r: &RawWindow = &raw[i];
        let left: u32 = move_onto(r.x as i64, phys_w);
        let top: u32 = move_onto(r.y as i64, phys_h);
        let right: u32 = move_onto(r.x as i64 + r.w as i64, phys_w);
        let bottom: u32 = move_onto(r.y as i64 + r.h as i64, phys_h);
        if left < right && top < bottom {
            out.push(WindowBox { title: r.title.clone(), left, top, right, bottom });
        }
        i = i + 1;
    }
    assert(raw@.take(i as int) =~= raw@);
    out
}

/// A display without a size has no windows.
pub proof fn law_empty_display_has_no_windows(raw: Seq<RawWindow>, phys_w: u32, phys_h: u32)
    requires
        phys_w == 0 || phys_h == 0,
    ensures
        displayed(raw, phys_w, phys_h).len() == 0,
    decreases raw.len(),
{
    if raw.len() > 0 {
        law_empty_display_has_no_windows(raw.drop_last(), phys_w, phys_h);
    }
}

/// A window is offered where it can be seen, has a title, is not one of this program's own, and is
/// at least 80 pixels wide and 60 high.
pub proof fn law_small_windows_are_not_offered(f: WindowFacts)
    ensures
        snappable(f) <==> f.visible && f.title_len > 0 && !f.own && f.left + 80 <= f.right && f.top
            + 60 <= f.bottom,
{
}

/// A position on the display is kept; one beyond an edge becomes the edge.
pub proof fn law_positions_are_moved_to_the_edge(v: int, size: u32)
    ensures
        0 <= onto(v, size) <= size,
        0 <= v <= size ==> onto(v, size) == v,
        v < 0 ==> onto(v, size) == 0,
        v > size ==> onto(v, size) == size,
{
}

/// A window that lies on the display is boxed as it lies; of any other one the box holds exactly
/// the points that it shares with the display, column by column and row by row.
pub proof fn law_boxes_hold_the_visible_part(
    w: RawWindow,
    phys_w: u32,
    phys_h: u32,
    b: WindowBox,
    p: int,
)
    requires
        boxed(w, phys_w, phys_h, b),
    ensures
        b.title@ == w.title@,
        w.w >= 0 ==> (b.left <= p < b.right <==> w.x <= p < w.x + w.w && 0 <= p < phys_w),
        w.h >= 0 ==> (b.top <= p < b.bottom <==> w.y <= p < w.y + w.h && 0 <= p < phys_h),
        on_display(w, phys_w, phys_h) <==> b.left < b.right && b.top < b.bottom,
{
}

/// The list holds every window that shares a point with the display and no other, in their order.
pub proof fn law_every_visible_window_is_listed(
    raw: Seq<RawWindow>,
    more: Seq<RawWindow>,
    phys_w: u32,
    phys_h: u32,
)
    ensures
        displayed(raw + more, phys_w, phys_h) == displayed(raw, phys_w, phys_h) + displayed(
            more,
            phys_w,
            phys_h,
        ),
        more.len() == 1 && on_display(more[0], phys_w, phys_h) ==> displayed(more, phys_w, phys_h)
            == more,
        more.len() == 1 && !on_display(more[0], phys_w, phys_h) ==> displayed(
            more,
            phys_w,
            phys_h,
        ).len() == 0,
    decreases more.len(),
{
    if more.len() > 0 {
        law_every_visible_window_is_listed(raw, more.drop_last(), phys_w, phys_h);
        assert((raw + more).drop_last() == raw + more.drop_last());
        assert((raw + more).last() == more.last());
        if more.len() == 1 {
            assert(more.drop_last() == Seq::<RawWindow>::empty());
            assert(displayed(Seq::<RawWindow>::empty(), phys_w, phys_h).len() == 0);
            assert(displayed(more, phys_w, phys_h).len() == 1 ==> displayed(more, phys_w, phys_h)
                =~= more);
        }
        assert(displayed(raw + more, phys_w, phys_h) =~= displayed(raw, phys_w, phys_h) + displayed(
            more,
            phys_w,
            phys_h,
        ));
    } else {
        assert(raw + more == raw);
        assert(displayed(raw, phys_w, phys_h) + displayed(more, phys_w, phys_h) =~= displayed(
            raw,
            phys_w,
            phys_h,
        ));
    }
}

} // verus!
