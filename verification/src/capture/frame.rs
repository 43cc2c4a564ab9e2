//! Captured frames, and the books that the capture callback keeps.

use crate::convert::{
    bgra_to_nv12, bgra_to_nv12_region, chroma_blue, chroma_red, component, conversion_obstacle,
    converted, law_only_colours_matter, luma, BgraImageView, Nv12Image, Region,
};
use crate::counter::{bump, next_count};
use crate::error::{internal, MediaError, MediaResult};
use crate::picture::{law_blocks_keep_their_place, law_pixels_keep_their_place};
use crate::text::{decimal, push_decimal, push_signed, signed_decimal};
use crate::time::Srt100ns;
use vstd::prelude::*;

verus! {

/// A captured frame. It owns its pixels, so a capture can be closed while frames are still
/// waiting to be encoded.
#[derive(Debug)]
pub struct WgcFrame {
    pub nv12: Nv12Image,
    pub srt: Srt100ns,
    pub sequence: u64,
}

/// Pixel format of a captured surface: eight bits each of blue, green, red and alpha.
pub const FORMAT_BGRA8: i32 = 87;

/// A capture item must have a size.
pub fn check_item_size(width: u32, height: u32) -> (r: MediaResult<()>)
    ensures
        r is Ok <==> width > 0 && height > 0,
        r matches Err(e) ==> (e matches MediaError::Internal(text) && text@ == "捕获项尺寸非法："@
            + decimal(width as nat) + "x"@ + decimal(height as nat)),
{
    if width == 0 || height == 0 {
        let mut text: String = String::from_str("捕获项尺寸非法：");
        push_decimal(&mut text, width as u64);
        text.append("x");
        push_decimal(&mut text, height as u64);
        return Err(MediaError::Internal(text));
    }
    Ok(())
}

/// A captured surface can be converted: its format is BGRA and it has content. The format comes
/// first: a display in HDR mode may deliver another one.
pub fn check_surface(format: i32, width: u32, height: u32) -> (r: MediaResult<()>)
    ensures
        r is Ok <==> format == FORMAT_BGRA8 && width > 0 && height > 0,
        r matches Err(e) ==> (if format != FORMAT_BGRA8 {
            e matches MediaError::CaptureFormatUnsupported { actual } && actual@ == "DXGI_FORMAT("@
                + signed_decimal(format as int) + ")"@
        } else {
            e matches MediaError::Internal(text) && text@ == "ContentSize 为 0"@
        }),
{
    if format != FORMAT_BGRA8 {
        let mut actual: String = String::from_str("DXGI_FORMAT(");
        push_signed(&mut actual, format as i64);
        actual.append(")");
        return Err(MediaError::CaptureFormatUnsupported { actual });
    }
    if width == 0 || height == 0 {
        return Err(internal("ContentSize 为 0"));
    }
    Ok(())
}

/// A staging texture has to be made: there is none, or the size has changed.
pub fn needs_staging(current: Option<(u32, u32)>, size: (u32, u32)) -> (r: bool)
    ensures
        r == (current != Some(size)),
{
    match current {
        Some(old_size) => old_size.0 != size.0 || old_size.1 != size.1,
        None => true,
    }
}

/// The region that is converted: the chosen one, or the whole image.
pub open spec fn converted_region(view: BgraImageView<'_>, region: Option<Region>) -> Region {
    match region {
        Some(r) => r,
        None => Region { x: 0, y: 0, width: view.width, height: view.height },
    }
}

/// Converts a mapped surface, or the chosen part of it.
pub fn convert_surface(view: &BgraImageView<'_>, region: Option<Region>) -> (r: MediaResult<
    Nv12Image,
>)
    ensures
        match r {
            Ok(image) => {
                &&& conversion_obstacle(*view, converted_region(*view, region)) is None
                &&& converted(*view, converted_region(*view, region), image)
            },
            Err(e) => e matches MediaError::FrameConversionFailed { reason } && Some(reason@)
                == conversion_obstacle(*view, converted_region(*view, region)),
        },
{
    match region {
        Some(r) => bgra_to_nv12_region(view, r),
        None => bgra_to_nv12(view),
    }
}

/// The chosen part is what is shown: row `y`, column `x` of the image is the luma of the pixel that
/// lies `x` to the right and `y` below the corner of the chosen region.
pub proof fn law_chosen_part_is_shown(
    view: BgraImageView<'_>,
    chosen: Region,
    image: Nv12Image,
    x: int,
    y: int,
)
    requires
        conversion_obstacle(view, converted_region(view, Some(chosen))) is None,
        converted(view, converted_region(view, Some(chosen)), image),
        0 <= x < chosen.width,
        0 <= y < chosen.height,
    ensures
        image.width == chosen.width,
        image.height == chosen.height,
        chosen.x + chosen.width <= view.width,
        chosen.y + chosen.height <= view.height,
        ({
            let at = (chosen.y + y) * view.pitch + (chosen.x + x) * 4;
            image.data@[y * chosen.width + x] == luma(
                view.data@[at + 2] as int,
                view.data@[at + 1] as int,
                view.data@[at] as int,
            )
        }),
{
    law_pixels_keep_their_place(view, chosen, image, x, y);
}

/// The colours of the chosen part are those of its own blocks.
pub proof fn law_chosen_part_keeps_its_colours(
    view: BgraImageView<'_>,
    chosen: Region,
    image: Nv12Image,
    i: int,
    j: int,
)
    requires
        conversion_obstacle(view, converted_region(view, Some(chosen))) is None,
        converted(view, converted_region(view, Some(chosen)), image),
        0 <= i < chosen.width / 2,
        0 <= j < chosen.height / 2,
    ensures
        ({
            let data = view.data@;
            let top = (chosen.y + 2 * j) * view.pitch + (chosen.x + 2 * i) * 4;
            let below = top + view.pitch;
            let b = (data[top] + data[top + 4] + data[below] + data[below + 4]) / 4;
            let g = (data[top + 1] + data[top + 5] + data[below + 1] + data[below + 5]) / 4;
            let r = (data[top + 2] + data[top + 6] + data[below + 2] + data[below + 6]) / 4;
            let at = chosen.width * chosen.height + j * chosen.width + 2 * i;
            &&& image.data@[at] == chroma_blue(r, g, b)
            &&& image.data@[at + 1] == chroma_red(r, g, b)
        }),
{
    law_blocks_keep_their_place(view, chosen, image, i, j);
}

/// Without a choice the whole surface is shown, every pixel at its own place.
pub proof fn law_whole_surface_is_shown(
    view: BgraImageView<'_>,
    image: Nv12Image,
    x: int,
    y: int,
)
    requires
        conversion_obstacle(view, converted_region(view, None)) is None,
        converted(view, converted_region(view, None), image),
        0 <= x < view.width,
        0 <= y < view.height,
    ensures
        image.width == view.width,
        image.height == view.height,
        image.data@[y * view.width + x] == luma(
            view.data@[y * view.pitch + x * 4 + 2] as int,
            view.data@[y * view.pitch + x * 4 + 1] as int,
            view.data@[y * view.pitch + x * 4] as int,
        ),
{
    law_pixels_keep_their_place(
        view,
        Region { x: 0, y: 0, width: view.width, height: view.height },
        image,
        x,
        y,
    );
}

/// What lies outside the chosen part has no influence on the image: two surfaces that agree on the
/// colours of the part give the same bytes.
pub proof fn law_outside_has_no_influence(
    a: BgraImageView<'_>,
    b: BgraImageView<'_>,
    chosen: Region,
    first: Nv12Image,
    second: Nv12Image,
)
    requires
        conversion_obstacle(a, converted_region(a, Some(chosen))) is None,
        conversion_obstacle(b, converted_region(b, Some(chosen))) is None,
        converted(a, converted_region(a, Some(chosen)), first),
        converted(b, converted_region(b, Some(chosen)), second),
        a.pitch == b.pitch,
        forall|x: int, y: int, c: int|
            chosen.x <= x < chosen.x + chosen.width && chosen.y <= y < chosen.y + chosen.height && 0
                <= c < 3 ==> #[trigger] component(a.data@, a.pitch as int, x, y, c) == component(
                b.data@,
                b.pitch as int,
                x,
                y,
                c,
            ),
    ensures
        first.data@ == second.data@,
{
    law_only_colours_matter(a.data@, b.data@, a.pitch as int, chosen);
}

/// What the capture callback remembers.
#[derive(Debug)]
pub struct CaptureLog {
    next_sequence: u64,
    frames: u64,
    last_callback_ms: u64,
    fatal: Option<MediaError>,
}

impl CaptureLog {
    /// The number of the next frame, which is also the number of frames so far.
    pub closed spec fn sequence(&self) -> u64 {
        self.next_sequence
    }

    pub closed spec fn frame_count(&self) -> u64 {
        self.frames
    }

    /// When the last frame came, in milliseconds since the start of the capture.
    pub closed spec fn last_frame_ms(&self) -> u64 {
        self.last_callback_ms
    }

    /// The first error that was not taken yet.
    pub closed spec fn failure(&self) -> Option<MediaError> {
        self.fatal
    }

    pub fn new() -> (log: CaptureLog)
        ensures
            log.sequence() == 0,
            log.frame_count() == 0,
            log.last_frame_ms() == 0,
            log.failure() is None,
    {
        CaptureLog { next_sequence: 0, frames: 0, last_callback_ms: 0, fatal: None }
    }

    /// Takes the result of one callback: a frame gets its number, the first error is kept for the
    /// recorder, later ones are dropped.
    pub fn arrived(&mut self, result: MediaResult<(Nv12Image, Srt100ns)>, now_ms: u64) -> (r: Option<
        WgcFrame,
    >)
        ensures
            match result {
                Ok((nv12, srt)) => {
                    &&& r == Some(WgcFrame { nv12, srt, sequence: old(self).sequence() })
                    &&& final(self).sequence() == next_count(old(self).sequence())
                    &&& final(self).frame_count() == next_count(old(self).frame_count())
                    &&& final(self).last_frame_ms() == now_ms
                    &&& final(self).failure() == old(self).failure()
                },
                Err(e) => {
                    &&& r is None
                    &&& final(self).sequence() == old(self).sequence()
                    &&& final(self).frame_count() == old(self).frame_count()
                    &&& final(self).last_frame_ms() == old(self).last_frame_ms()
                    &&& final(self).failure() == (match old(self).failure() {
                        Some(first) => Some(first),
                        None => Some(e),
                    })
                },
            },
    {
        match result {
            Ok((nv12, srt)) => {
                let sequence: u64 = self.next_sequence;
                bump(&mut self.next_sequence);
                bump(&mut self.frames);
                self.last_callback_ms = now_ms;
                Some(WgcFrame { nv12, srt, sequence })
            },
            Err(e) => {
                if self.fatal.is_none() {
                    self.fatal = Some(e);
                }
                None
            },
        }
    }

    pub fn frames_captured(&self) -> (n: u64)
        ensures
            n == self.frame_count(),
    {
        self.frames
    }

    /// Milliseconds since the last frame.
    pub fn ms_since_last_callback(&self, now_ms: u64) -> (ms: u64)
        ensures
            ms == (if now_ms >= self.last_frame_ms() {
                now_ms - self.last_frame_ms()
            } else {
                0
            }),
    {
        now_ms.saturating_sub(self.last_callback_ms)
    }

    /// Takes the error, if there is one.
    pub fn take_fatal(&mut self) -> (e: Option<MediaError>)
        ensures
            e == old(self).failure(),
            final(self).failure() is None,
            final(self).sequence() == old(self).sequence(),
            final(self).frame_count() == old(self).frame_count(),
            final(self).last_frame_ms() == old(self).last_frame_ms(),
    {
        self.fatal.take()
    }
}

/// What waiting for a single frame comes to.
pub enum Snapshot {
    Got(Nv12Image),
    TimedOut(MediaError),
    /// Pause and look again.
    Wait,
}

/// One look for a single frame.
pub fn single_frame(frame: Option<Nv12Image>, waited_ns: u64, timeout_ns: u64) -> (r: Snapshot)
    ensures
        r == (match frame {
            Some(image) => Snapshot::Got(image),
            None => if waited_ns > timeout_ns {
                Snapshot::TimedOut(MediaError::CaptureNoFrames(timeout_ns / 1_000_000_000))
            } else {
                Snapshot::Wait
            },
        }),
{
    match frame {
        Some(image) => Snapshot::Got(image),
        None => if waited_ns > timeout_ns {
            Snapshot::TimedOut(MediaError::CaptureNoFrames(timeout_ns / 1_000_000_000))
        } else {
            Snapshot::Wait
        },
    }
}

/// Milliseconds that a closed capture is given to leave its last callback.
pub const CALLBACK_DRAIN_MS: u64 = 2000;

/// After closing a capture: wait while a callback is still running, but not for ever.
pub fn must_await_callbacks(in_flight: u64, waited_ms: u64) -> (r: bool)
    ensures
        r == (in_flight > 0 && waited_ms <= CALLBACK_DRAIN_MS),
{
    in_flight > 0 && waited_ms <= CALLBACK_DRAIN_MS
}

/// A complete surface can be shown, as a whole or in part: what is asked for has to be made of
/// whole blocks and lie on the surface, and the rows and the buffer have to reach to its last
/// pixel. Nothing else stands in the way.
pub proof fn law_complete_surfaces_can_be_shown(view: BgraImageView<'_>, chosen: Region)
    ensures
        conversion_obstacle(view, converted_region(view, None)) is None <==> {
            &&& 0 < view.width && view.width % 2 == 0
            &&& 0 < view.height && view.height % 2 == 0
            &&& 4 * view.width <= view.pitch
            &&& (view.height - 1) * view.pitch + view.width * 4 <= view.data@.len()
        },
        conversion_obstacle(view, converted_region(view, Some(chosen))) is None <==> {
            &&& 0 < chosen.width && chosen.width % 2 == 0
            &&& 0 < chosen.height && chosen.height % 2 == 0
            &&& chosen.x + chosen.width <= view.width
            &&& chosen.y + chosen.height <= view.height
            &&& 4 * view.width <= view.pitch
            &&& (chosen.y + chosen.height - 1) * view.pitch + (chosen.x + chosen.width) * 4
                <= view.data@.len()
        },
{
}

} // verus!
