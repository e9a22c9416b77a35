//! The destination surface: a BGRA image that tracks the dimensions of the
//! frame presented last.

use crate::frame::packed_len;
use vstd::prelude::*;

verus! {

/// Bytes that one pixel takes in a destination surface: blue, green, red,
/// alpha.
pub const BGRA_BYTES_PER_PIXEL: usize = 4;

/// Width and height of the surface that a stream starts with, before the
/// first frame tells the real size.
pub const PLACEHOLDER_EXTENT: u32 = 12;

/// A two-dimensional image of four bytes per pixel, row-major.
#[derive(Debug, Clone, PartialEq, Eq)]
pub struct Surface {
    pub width: u32,
    pub height: u32,
    pub data: Vec<u8>,
}

/// What a surface is, mathematically: its dimensions and its bytes.
pub ghost struct SurfaceView {
    pub width: nat,
    pub height: nat,
    pub bgra: Seq<u8>,
}

impl View for Surface {
    type V = SurfaceView;

    open spec fn view(&self) -> SurfaceView {
        SurfaceView { width: self.width as nat, height: self.height as nat, bgra: self.data@ }
    }
}

impl SurfaceView {
    /// The backing buffer holds exactly `width * height` pixels of four
    /// bytes.
    pub open spec fn is_well_formed(self) -> bool {
        self.bgra.len() == packed_len(self.width, self.height, 4)
    }
}

/// `bytes` cut or zero-filled at its end to the length `len`.
pub open spec fn resized_bytes(bytes: Seq<u8>, len: nat) -> Seq<u8> {
    if len <= bytes.len() {
        bytes.subrange(0, len as int)
    } else {
        bytes + Seq::new((len - bytes.len()) as nat, |i: int| 0u8)
    }
}

/// The length of the BGRA buffer of a `width` by `height` surface, or `None`
/// where that length is no `usize`.
pub fn bgra_len(width: u32, height: u32) -> (len: Option<usize>)
    ensures
        len is Some <==> packed_len(width as nat, height as nat, 4) <= usize::MAX,
        len is Some ==> len->0 == packed_len(width as nat, height as nat, 4),
{
    assert(width * height <= 0xffff_ffff * 0xffff_ffff) by (nonlinear_arith)
        requires
            width <= 0xffff_ffff,
            height <= 0xffff_ffff,
    ;
    let pixels: u64 = (width as u64) * (height as u64);
    if pixels > (usize::MAX / BGRA_BYTES_PER_PIXEL) as u64 {
        None
    } else {
        Some(pixels as usize * BGRA_BYTES_PER_PIXEL)
    }
}

impl Surface {
    /// Well-formedness of the surface, see [`SurfaceView::is_well_formed`].
    pub open spec fn is_well_formed(&self) -> bool {
        self@.is_well_formed()
    }

    /// Tells whether the backing buffer's length fits the dimensions.
    pub fn check(&self) -> (ok: bool)
        ensures
            ok == self.is_well_formed(),
    {
        let held = self.data.len();
        match bgra_len(self.width, self.height) {
            Some(wanted) => held == wanted,
            None => false,
        }
    }

    /// Sets the dimensions and brings the backing buffer to their length:
    /// bytes beyond it are cut off, missing bytes are zero.
    pub fn resize(&mut self, width: u32, height: u32)
        requires
            packed_len(width as nat, height as nat, 4) <= usize::MAX,
        ensures
            final(self)@.width == width,
            final(self)@.height == height,
            final(self)@.bgra == resized_bytes(
                old(self)@.bgra,
                packed_len(width as nat, height as nat, 4),
            ),
            final(self).is_well_formed(),
    {
        let len = bgra_len(width, height).unwrap();
        self.width = width;
        self.height = height;
        self.data.resize(len, 0u8);
    }
}

/// The bytes of a new surface: one opaque white pixel, cut or zero-filled to
/// the length `len`.
pub open spec fn initial_bytes(len: nat) -> Seq<u8> {
    resized_bytes(seq![255u8, 255u8, 255u8, 255u8], len)
}

/// A new surface of the given dimensions: made as one opaque white pixel and
/// then resized, so that all bytes behind the first four are zero.
pub fn create_image(width: u32, height: u32) -> (image: Surface)
    requires
        packed_len(width as nat, height as nat, 4) <= usize::MAX,
    ensures
        image@.width == width,
        image@.height == height,
        image@.bgra == initial_bytes(packed_len(width as nat, height as nat, 4)),
        image.is_well_formed(),
{
    let data: Vec<u8> = vec![255u8; BGRA_BYTES_PER_PIXEL];
    assert(data@ =~= seq![255u8, 255u8, 255u8, 255u8]);
    let mut image = Surface { width: 1, height: 1, data };
    image.resize(width, height);
    image
}

/// The surface that a stream starts with: twelve by twelve.
pub fn placeholder_image() -> (image: Surface)
    ensures
        image@.width == PLACEHOLDER_EXTENT,
        image@.height == PLACEHOLDER_EXTENT,
        image@.bgra == initial_bytes(576),
        image.is_well_formed(),
{
    assert(packed_len(12, 12, 4) == 576);
    create_image(PLACEHOLDER_EXTENT, PLACEHOLDER_EXTENT)
}

} // verus!
