//! The frameless main window.
//!
//! The window library writes the caption style back whenever a flag of the window changes. Every
//! style on its way to the window therefore passes a filter, and a guard looks at the result
//! from time to time.

use crate::counter::{bump, next_count};
use vstd::prelude::*;

verus! {

/// Style bits of a caption, a sizing border, a system menu and its two boxes.
pub const FRAME_CLEAR_MASK: u32 = 0x00cf_0000;

/// Style bit of a window without a frame.
pub const STYLE_POPUP: u32 = 0x8000_0000;

/// Class style bit of the shadow that the system draws.
pub const CLASS_DROP_SHADOW: u64 = 0x0002_0000;

/// A style without the frame bits and with the bit of a frameless window.
pub open spec fn frameless(style: u32) -> u32 {
    (style & !FRAME_CLEAR_MASK) | STYLE_POPUP
}

pub open spec fn has_frame(style: u32) -> bool {
    style & FRAME_CLEAR_MASK != 0
}

/// Tells whether a style still has a frame.
pub fn is_framed(style: u32) -> (r: bool)
    ensures
        r == has_frame(style),
{
    style & FRAME_CLEAR_MASK != 0
}

/// The style to set on a window that has `style`, or nothing where it is right already.
pub fn enforce_frameless_style(style: u32) -> (r: Option<u32>)
    ensures
        r is None <==> style == frameless(style),
        r matches Some(want) ==> want == frameless(style),
{
    let want: u32 = (style & !FRAME_CLEAR_MASK) | STYLE_POPUP;
    if want == style {
        None
    } else {
        Some(want)
    }
}

/// Whatever is written, no frame bit gets through.
pub proof fn law_no_frame_gets_through(style: u32)
    ensures
        !has_frame(frameless(style)),
        frameless(style) & STYLE_POPUP == STYLE_POPUP,
{
    assert(((style & !0x00cf_0000u32) | 0x8000_0000u32) & 0x00cf_0000u32 == 0) by (bit_vector);
    assert(((style & !0x00cf_0000u32) | 0x8000_0000u32) & 0x8000_0000u32 == 0x8000_0000u32)
        by (bit_vector);
}

/// A style that passed the filter passes it unchanged.
pub proof fn law_frameless_is_idempotent(style: u32)
    ensures
        frameless(frameless(style)) == frameless(style),
{
    assert((((style & !0x00cf_0000u32) | 0x8000_0000u32) & !0x00cf_0000u32) | 0x8000_0000u32 == (
    style & !0x00cf_0000u32) | 0x8000_0000u32) by (bit_vector);
}

/// The filter touches no other bit.
pub proof fn law_other_bits_are_kept(style: u32)
    ensures
        frameless(style) & !(FRAME_CLEAR_MASK | STYLE_POPUP) == style & !(FRAME_CLEAR_MASK
            | STYLE_POPUP),
{
    assert(((style & !0x00cf_0000u32) | 0x8000_0000u32) & !(0x00cf_0000u32 | 0x8000_0000u32)
        == style & !(0x00cf_0000u32 | 0x8000_0000u32)) by (bit_vector);
}

/// The filter in front of the window, with a count of the styles it changed.
#[derive(Debug, Clone, Copy, PartialEq, Eq, Structural)]
pub struct StyleFilter {
    pub blocked: u64,
}

impl StyleFilter {
    pub fn new() -> (f: StyleFilter)
        ensures
            f.blocked == 0,
    {
        StyleFilter { blocked: 0 }
    }

    /// A style is about to be written. Gives what to write instead, or nothing where the style
    /// may pass.
    pub fn style_changing(&mut self, incoming: u32) -> (r: Option<u32>)
        ensures
            r is None <==> incoming == frameless(incoming),
            r matches Some(filtered) ==> filtered == frameless(incoming),
            final(self).blocked == (if r is Some {
                next_count(old(self).blocked)
            } else {
                old(self).blocked
            }),
    {
        let r: Option<u32> = enforce_frameless_style(incoming);
        if r.is_some() {
            bump(&mut self.blocked);
        }
        r
    }
}

/// The class style without the system's shadow, or nothing where it has none.
pub fn without_drop_shadow(class_style: u64) -> (r: Option<u64>)
    ensures
        r is Some <==> class_style & CLASS_DROP_SHADOW != 0,
        r matches Some(s) ==> s == class_style & !CLASS_DROP_SHADOW,
{
    if class_style & CLASS_DROP_SHADOW != 0 {
        Some(class_style & !CLASS_DROP_SHADOW)
    } else {
        None
    }
}

/// Smaller differences between window and client area are rounding.
pub const GUTTER_PIXELS: i32 = 4;

/// How much larger the window is than its client area, where that is more than rounding: the
/// window library has reserved room for a shadow.
pub fn shadow_gutter(window: (i32, i32), client: (i32, i32)) -> (r: Option<(i32, i32)>)
    requires
        i32::MIN <= window.0 - client.0 <= i32::MAX,
        i32::MIN <= window.1 - client.1 <= i32::MAX,
    ensures
        r is Some <==> window.0 - client.0 >= GUTTER_PIXELS || window.1 - client.1
            >= GUTTER_PIXELS,
        r matches Some((dw, dh)) ==> dw == window.0 - client.0 && dh == window.1 - client.1,
{
    let dw: i32 = window.0 - client.0;
    let dh: i32 = window.1 - client.1;
    if dw >= GUTTER_PIXELS || dh >= GUTTER_PIXELS {
        Some((dw, dh))
    } else {
        None
    }
}

/// What the guard has to say about the gutter.
#[derive(Debug, Clone, Copy, PartialEq, Eq, Structural)]
pub enum GutterEvent {
    Nothing,
    Appeared(i32, i32),
    Gone,
}

/// What a look at the window has the guard say.
pub open spec fn gutter_event(guard: FrameGuard, seen: Option<(i32, i32)>) -> GutterEvent {
    match seen {
        Some((dw, dh)) if !guard.gutter_warned => GutterEvent::Appeared(dw, dh),
        None if guard.gutter_warned => GutterEvent::Gone,
        _ => GutterEvent::Nothing,
    }
}

/// The frame guard between two looks at the window.
#[derive(Debug, Clone, Copy, PartialEq, Eq, Structural)]
pub struct FrameGuard {
    /// A gutter has been reported and is still there.
    pub gutter_warned: bool,
    pub reapplied: u64,
}

/// Milliseconds between two looks.
pub const GUARD_PERIOD_MS: u64 = 750;

/// Every so many looks the guard leaves a trace in the log.
pub const GUARD_TRACE_EVERY: u64 = 400;

impl FrameGuard {
    pub fn new() -> (g: FrameGuard)
        ensures
            !g.gutter_warned,
            g.reapplied == 0,
    {
        FrameGuard { gutter_warned: false, reapplied: 0 }
    }

    /// Notes whether there is a gutter. Only a change is reported.
    pub fn gutter(&mut self, seen: Option<(i32, i32)>) -> (event: GutterEvent)
        ensures
            *final(self) == (FrameGuard { gutter_warned: seen is Some, ..*old(self) }),
            event == gutter_event(*old(self), seen),
    {
        match seen {
            Some((dw, dh)) => {
                if self.gutter_warned {
                    GutterEvent::Nothing
                } else {
                    self.gutter_warned = true;
                    GutterEvent::Appeared(dw, dh)
                }
            },
            None => {
                if self.gutter_warned {
                    self.gutter_warned = false;
                    GutterEvent::Gone
                } else {
                    GutterEvent::Nothing
                }
            },
        }
    }

    /// Counts a look; tells whether it leaves a trace.
    pub fn looked(&mut self) -> (trace: bool)
        ensures
            *final(self) == (FrameGuard { reapplied: next_count(old(self).reapplied), ..*old(self)
            }),
            trace == (final(self).reapplied == 1 || final(self).reapplied % GUARD_TRACE_EVERY == 0),
    {
        bump(&mut self.reapplied);
        self.reapplied == 1 || self.reapplied % GUARD_TRACE_EVERY == 0
    }
}

/// Whether the filter sits in front of a window.
#[derive(Debug, Clone, Copy, PartialEq, Eq, Structural)]
pub enum FilterPlace {
    /// The window procedure could not be read.
    Unknown,
    Installed,
    /// Some other procedure is in place.
    Missing,
}

/// Looks at the address of the window procedure in use.
pub fn filter_place(current: isize, ours: isize) -> (r: FilterPlace)
    ensures
        r == (if current == 0 {
            FilterPlace::Unknown
        } else if current == ours {
            FilterPlace::Installed
        } else {
            FilterPlace::Missing
        }),
{
    if current == 0 {
        FilterPlace::Unknown
    } else if current == ours {
        FilterPlace::Installed
    } else {
        FilterPlace::Missing
    }
}

/// The gutter is reported once for as long as it stays: a second look that sees the same says
/// nothing.
pub proof fn law_gutter_is_reported_once(guard: FrameGuard, seen: Option<(i32, i32)>)
    requires
        guard.gutter_warned == (seen is Some),
    ensures
        gutter_event(guard, seen) is Nothing,
{
}

/// A gutter is reported when it is first seen, with its size, and its end when it is first
/// missed.
pub proof fn law_gutter_changes_are_reported(guard: FrameGuard, dw: i32, dh: i32)
    ensures
        !guard.gutter_warned ==> gutter_event(guard, Some((dw, dh))) == GutterEvent::Appeared(
            dw,
            dh,
        ),
        guard.gutter_warned ==> gutter_event(guard, None) is Gone,
        guard.gutter_warned ==> gutter_event(guard, Some((dw, dh))) is Nothing,
        !guard.gutter_warned ==> gutter_event(guard, None) is Nothing,
{
}

} // verus!
