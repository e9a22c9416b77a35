//! Decoded frames: packed RGB pixels with their dimensions.

use vstd::prelude::*;

verus! {

/// Bytes that one pixel takes in a decoded frame: red, green, blue.
pub const RGB_BYTES_PER_PIXEL: usize = 3;

/// One decoded picture: row-major packed RGB, three bytes per pixel.
#[derive(Debug, Clone, PartialEq, Eq)]
pub struct VideoFrame {
    pub buffer: Vec<u8>,
    pub width: usize,
    pub height: usize,
}

/// What a frame is, mathematically: its dimensions and its bytes.
pub ghost struct FrameView {
    pub width: nat,
    pub height: nat,
    pub rgb: Seq<u8>,
}

impl View for VideoFrame {
    type V = FrameView;

    open spec fn view(&self) -> FrameView {
        FrameView { width: self.width as nat, height: self.height as nat, rgb: self.buffer@ }
    }
}

/// The number of bytes that a `width` by `height` picture takes at
/// `bytes_per_pixel` bytes per pixel.
pub open spec fn packed_len(width: nat, height: nat, bytes_per_pixel: nat) -> nat {
    width * height * bytes_per_pixel
}

impl FrameView {
    /// Both dimensions are positive and the buffer holds exactly
    /// `width * height` pixels of three bytes.
    pub open spec fn is_well_formed(self) -> bool {
        &&& self.width > 0
        &&& self.height > 0
        &&& self.rgb.len() == packed_len(self.width, self.height, 3)
    }

    /// The frame can be shown on a surface: its dimensions fit the surface's
    /// 32-bit extent, and its rendering at four bytes per pixel has a length
    /// that the machine can hold.
    pub open spec fn fits_surface(self) -> bool {
        &&& self.width <= u32::MAX
        &&& self.height <= u32::MAX
        &&& packed_len(self.width, self.height, 4) <= usize::MAX
    }

    /// The frame is well-formed and can be shown on a surface.
    pub open spec fn is_presentable(self) -> bool {
        self.is_well_formed() && self.fits_surface()
    }
}

impl VideoFrame {
    /// Well-formedness of the frame, see [`FrameView::is_well_formed`].
    pub open spec fn is_well_formed(&self) -> bool {
        self@.is_well_formed()
    }

    /// Tells whether the buffer's length fits the dimensions and both
    /// dimensions are positive.
    pub fn check(&self) -> (ok: bool)
        ensures
            ok == self.is_well_formed(),
    {
        if self.width == 0 || self.height == 0 {
            return false;
        }
        let held = self.buffer.len();
        match rgb_len(self.width, self.height) {
            Some(wanted) => held == wanted,
            None => false,
        }
    }

    /// Builds a frame from its parts, if they fit together.
    pub fn new(buffer: Vec<u8>, width: usize, height: usize) -> (made: Option<VideoFrame>)
        ensures
            made is Some <==> (FrameView { width: width as nat, height: height as nat, rgb: buffer@ }).is_well_formed(),
            made is Some ==> made->0.buffer == buffer && made->0.width == width && made->0.height == height,
    {
        let frame = VideoFrame { buffer, width, height };
        if frame.check() {
            Some(frame)
        } else {
            None
        }
    }
}

/// The length of the RGB buffer of a `width` by `height` picture, or `None`
/// where that length is no `usize`.
pub fn rgb_len(width: usize, height: usize) -> (len: Option<usize>)
    ensures
        len is Some <==> packed_len(width as nat, height as nat, 3) <= usize::MAX,
        len is Some ==> len->0 == packed_len(width as nat, height as nat, 3),
{
    match width.checked_mul(height) {
        Some(pixels) => {
            let len = pixels.checked_mul(RGB_BYTES_PER_PIXEL);
            proof {
                if len is None {
                    assert(width * height * 3 > usize::MAX);
                }
            }
            len
        },
        None => {
            proof {
                assert(width * height * 3 >= width * height) by (nonlinear_arith);
            }
            None
        },
    }
}

} // verus!
