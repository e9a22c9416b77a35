//! The presenter step: once per tick, the newest frame is adapted into the
//! destination surface.

use crate::frame::{FrameView, VideoFrame, RGB_BYTES_PER_PIXEL};
use crate::surface::{bgra_len, Surface, SurfaceView, BGRA_BYTES_PER_PIXEL};
use vstd::prelude::*;

verus! {

/// The alpha value of every presented pixel: fully opaque.
pub const OPAQUE_ALPHA: u8 = 255;

/// Byte `i` of the BGRA rendering of packed RGB bytes: within each pixel the
/// first and the third channel change places, the fourth byte is the opaque
/// alpha.
pub open spec fn bgra_byte(rgb: Seq<u8>, i: int) -> u8 {
    let pixel = i / 4;
    let channel = i % 4;
    if channel == 3 {
        OPAQUE_ALPHA
    } else {
        rgb[pixel * 3 + (2 - channel)]
    }
}

/// The BGRA rendering of packed RGB bytes, four bytes for each three.
pub open spec fn bgra_of(rgb: Seq<u8>) -> Seq<u8> {
    Seq::new((rgb.len() / 3 * 4) as nat, |i: int| bgra_byte(rgb, i))
}

/// Writes the BGRA rendering of `source` over `target`, pixel by pixel.
pub fn write_bgra(target: &mut Vec<u8>, source: &Vec<u8>)
    requires
        source@.len() % 3 == 0,
        old(target)@.len() == source@.len() / 3 * 4,
    ensures
        final(target)@ == bgra_of(source@),
{
    let pixels: usize = source.len() / RGB_BYTES_PER_PIXEL;
    let room: usize = target.len();
    let mut pixel: usize = 0;
    while pixel < pixels
        invariant
            pixels == source@.len() / 3,
            room == pixels * 4,
            source@.len() % 3 == 0,
            target@.len() == pixels * 4,
            pixel <= pixels,
            forall|i: int| 0 <= i < pixel * 4 ==> #[trigger] target@[i] == bgra_byte(source@, i),
        decreases pixels - pixel,
    {
        let from: usize = pixel * RGB_BYTES_PER_PIXEL;
        let to: usize = pixel * BGRA_BYTES_PER_PIXEL;
        let red: u8 = source[from];
        let green: u8 = source[from + 1];
        let blue: u8 = source[from + 2];
        target.set(to, blue);
        target.set(to + 1, green);
        target.set(to + 2, red);
        target.set(to + 3, OPAQUE_ALPHA);
        pixel = pixel + 1;
    }
    assert(target@ =~= bgra_of(source@));
}

/// The surface's dimensions differ from the frame's.
pub open spec fn needs_resize(surface: SurfaceView, frame: FrameView) -> bool {
    surface.width != frame.width || surface.height != frame.height
}

/// The surface after `frame` has been presented on it: the frame's
/// dimensions, and the BGRA rendering of its pixels.
pub open spec fn presented(surface: SurfaceView, frame: FrameView) -> SurfaceView {
    SurfaceView { width: frame.width, height: frame.height, bgra: bgra_of(frame.rgb) }
}

/// How many of the presentations of `frames`, one after the other, resize
/// the surface.
pub open spec fn resize_count(surface: SurfaceView, frames: Seq<FrameView>) -> nat
    decreases frames.len(),
{
    if frames.len() == 0 {
        0
    } else {
        let now: nat = if needs_resize(surface, frames[0]) {
            1
        } else {
            0
        };
        now + resize_count(presented(surface, frames[0]), frames.subrange(1, frames.len() as int))
    }
}

/// Tells whether the frame can be shown on a surface.
pub fn can_present(frame: &VideoFrame) -> (ok: bool)
    ensures
        ok == frame@.is_presentable(),
{
    if !frame.check() {
        return false;
    }
    if frame.width > u32::MAX as usize || frame.height > u32::MAX as usize {
        return false;
    }
    bgra_len(frame.width as u32, frame.height as u32).is_some()
}

/// Shows `frame` on `surface`: resizes the surface where the dimensions
/// differ, then writes every pixel. Returns whether it resized.
pub fn present(surface: &mut Surface, frame: &VideoFrame) -> (resized: bool)
    requires
        frame@.is_presentable(),
        old(surface).is_well_formed(),
    ensures
        resized == needs_resize(old(surface)@, frame@),
        final(surface)@ == presented(old(surface)@, frame@),
        final(surface).is_well_formed(),
{
    let width: u32 = frame.width as u32;
    let height: u32 = frame.height as u32;
    let resized = surface.width != width || surface.height != height;
    if resized {
        surface.resize(width, height);
    }
    write_bgra(&mut surface.data, &frame.buffer);
    resized
}

/// What one presenter tick did for one stream.
#[derive(Debug, Clone, Copy, PartialEq, Eq)]
pub enum PresentOutcome {
    /// No frame waited: nothing was touched.
    Idle,
    /// A frame waited, but the destination surface is gone: the stream is to
    /// be detached.
    Detached,
    /// The frame was written to the surface.
    Presented { resized: bool },
}

/// One presenter tick for one stream. `frame` is what the mailbox gave,
/// `target` the stream's destination surface, `None` where it was destroyed.
pub fn present_frame(frame: Option<VideoFrame>, target: &mut Option<Surface>) -> (outcome:
    PresentOutcome)
    requires
        frame is Some && *old(target) is Some ==> {
            &&& frame->0@.is_presentable()
            &&& (*old(target))->0.is_well_formed()
        },
    ensures
        frame is None ==> outcome == PresentOutcome::Idle && *final(target) == *old(target),
        frame is Some && *old(target) is None ==> {
            &&& outcome == PresentOutcome::Detached
            &&& *final(target) is None
        },
        frame is Some && *old(target) is Some ==> {
            &&& outcome == (PresentOutcome::Presented {
                resized: needs_resize((*old(target))->0@, frame->0@),
            })
            &&& *final(target) is Some
            &&& (*final(target))->0@ == presented((*old(target))->0@, frame->0@)
            &&& (*final(target))->0.is_well_formed()
        },
{
    match frame {
        None => PresentOutcome::Idle,
        Some(frame) => match target {
            None => PresentOutcome::Detached,
            Some(surface) => {
                let resized = present(surface, &frame);
                PresentOutcome::Presented { resized }
            },
        },
    }
}

/// Pixel adaptation: the rendering has four bytes for each pixel of the
/// source, and pixel `pixel` of it holds the third, the second and the first
/// byte of the source's pixel, in this order, and then the opaque alpha.
pub proof fn lemma_bgra_pixel(rgb: Seq<u8>, pixel: int)
    requires
        0 <= pixel < rgb.len() / 3,
    ensures
        bgra_of(rgb).len() == rgb.len() / 3 * 4,
        bgra_of(rgb)[4 * pixel] == rgb[3 * pixel + 2],
        bgra_of(rgb)[4 * pixel + 1] == rgb[3 * pixel + 1],
        bgra_of(rgb)[4 * pixel + 2] == rgb[3 * pixel],
        bgra_of(rgb)[4 * pixel + 3] == OPAQUE_ALPHA,
{
}

/// Resize trigger: a frame whose dimensions differ from the surface's resizes
/// it to exactly the frame's dimensions, and a frame of the surface's own
/// dimensions does not resize it.
pub proof fn lemma_resize_when_dimensions_differ(surface: SurfaceView, frame: FrameView)
    ensures
        needs_resize(surface, frame) <==> !(surface.width == frame.width && surface.height
            == frame.height),
        presented(surface, frame).width == frame.width,
        presented(surface, frame).height == frame.height,
        !needs_resize(presented(surface, frame), frame),
{
}

/// Resize at most once: where all of `frames` have the dimensions `width`
/// by `height`, presenting them one after the other resizes the surface once
/// if it had other dimensions and there is a frame at all, and never
/// otherwise.
pub proof fn lemma_resize_once(surface: SurfaceView, frames: Seq<FrameView>, width: nat, height: nat)
    requires
        forall|i: int|
            0 <= i < frames.len() ==> (#[trigger] frames[i]).width == width && frames[i].height
                == height,
    ensures
        resize_count(surface, frames) == (if frames.len() > 0 && (surface.width != width
            || surface.height != height) {
            1nat
        } else {
            0nat
        }),
    decreases frames.len(),
{
    if frames.len() > 0 {
        let rest = frames.subrange(1, frames.len() as int);
        assert forall|i: int| 0 <= i < rest.len() implies (#[trigger] rest[i]).width == width
            && rest[i].height == height by {
            assert(rest[i] == frames[i + 1]);
        }
        lemma_resize_once(presented(surface, frames[0]), rest, width, height);
    }
}

} // verus!
