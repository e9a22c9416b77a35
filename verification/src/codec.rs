//! The boundary to the OpenH264 bindings: what is taken on trust of the
//! decoder, and the verified step from a decoded picture to a frame.

use crate::frame::{packed_len, rgb_len, FrameView, VideoFrame};
use crate::surface::bgra_len;
use openh264::decoder::{DecodedYUV, Decoder};
use openh264::Error;
use vstd::prelude::*;

verus! {

/// `openh264::decoder::Decoder`, an AVC decoder with its stream state. Opaque.
#[verifier::external_type_specification]
#[verifier::external_body]
pub struct ExDecoder(openh264::decoder::Decoder);

/// `openh264::decoder::DecodedYUV`, a picture that lives in the decoder's own
/// buffers until the next decode call. Opaque.
#[verifier::external_type_specification]
#[verifier::external_body]
pub struct ExDecodedYUV<'a>(openh264::decoder::DecodedYUV<'a>);

/// `openh264::Error`. Opaque.
#[verifier::external_type_specification]
#[verifier::external_body]
pub struct ExError(openh264::Error);

/// Width and height, in pixels, of a decoded picture: what
/// `DecodedYUV::dimension_rgb` returns for it.
pub uninterp spec fn picture_dimensions(picture: &DecodedYUV<'_>) -> (usize, usize);

/// The packed RGB bytes of a decoded picture, row by row, three bytes per
/// pixel: what `DecodedYUV::write_rgb8` writes for it.
pub uninterp spec fn picture_rgb8(picture: &DecodedYUV<'_>) -> Seq<u8>;

/// The text that an error of the decoder shows itself with: what its
/// `Display` writes.
pub uninterp spec fn error_text(error: &Error) -> Seq<char>;

/// `Display` of `openh264::Error`, through `to_string`: the error's native
/// code, its decoding state and its message, as text. It is the same text for
/// the same error.
#[verifier::external_body]
fn error_message(error: &Error) -> (message: String)
    ensures
        message@ == error_text(error),
{
    error.to_string()
}

/// `Decoder::new` creates a decoder with the default configuration. It may
/// fail; nothing is claimed of the outcome.
pub assume_specification[ Decoder::new ]() -> (created: Result<Decoder, Error>)
;

/// `Decoder::decode` feeds one packet to the decoder. What comes back depends
/// on the packet and on everything the decoder has seen before: a picture, no
/// picture yet, or an error for a corrupted bitstream. Nothing is claimed of
/// which.
pub assume_specification<'a>[ Decoder::decode ](decoder: &'a mut Decoder, packet: &[u8]) -> (decoded:
    Result<Option<DecodedYUV<'a>>, Error>)
;

/// `DecodedYUV::dimension_rgb` returns the picture's width and height.
pub assume_specification<'a>[ DecodedYUV::<'a>::dimension_rgb ](picture: &DecodedYUV<'a>) -> (dims:
    (usize, usize))
    ensures
        dims == picture_dimensions(picture),
;

/// `DecodedYUV::write_rgb8` converts the picture to packed RGB and writes
/// every byte of `target`. It panics unless `target` has three bytes for each
/// pixel of the picture, which the precondition asks for. It also panics on a
/// picture that is not in the I420 layout; the decoder hands out no other.
pub assume_specification<'a>[ DecodedYUV::<'a>::write_rgb8 ](
    picture: &DecodedYUV<'a>,
    target: &mut [u8],
)
    requires
        old(target)@.len() == picture_dimensions(picture).0 * picture_dimensions(picture).1 * 3,
    ensures
        final(target)@ == picture_rgb8(picture),
        final(target)@.len() == old(target)@.len(),
;

/// Why a packet gave no frame.
#[derive(Debug, Clone, PartialEq, Eq)]
pub enum DecodeError {
    /// No decoder could be created. The text is the decoder's own report.
    Unavailable(String),
    /// The decoder rejected the packet. The text is the decoder's own report.
    Bitstream(String),
    /// The decoder produced a picture without pixels, or one too large to be
    /// shown on a surface.
    PictureSize,
}

/// What one packet led to.
#[derive(Debug, Clone, PartialEq, Eq)]
pub enum DecodeOutcome {
    /// A displayable frame.
    Picture(VideoFrame),
    /// The packet was accepted, but there is nothing to display yet.
    NoOutput,
    /// The packet gave no frame, and this is why.
    Failed(DecodeError),
}

/// A picture of these dimensions can become a frame and be shown: both are
/// positive and fit a surface's 32-bit extent, and the picture's bytes at
/// four per pixel have a length that is a `usize`.
pub open spec fn frame_dimensions_ok(dims: (usize, usize)) -> bool {
    &&& 0 < dims.0 <= u32::MAX
    &&& 0 < dims.1 <= u32::MAX
    &&& packed_len(dims.0 as nat, dims.1 as nat, 4) <= usize::MAX
}

/// The frame that a decoded picture stands for.
pub open spec fn frame_of_picture(picture: &DecodedYUV<'_>) -> FrameView {
    FrameView {
        width: picture_dimensions(picture).0 as nat,
        height: picture_dimensions(picture).1 as nat,
        rgb: picture_rgb8(picture),
    }
}

/// The length of the RGB buffer for a picture of these dimensions, or
/// `PictureSize` where no frame of these dimensions can be made and shown.
pub fn picture_buffer_len(width: usize, height: usize) -> (len: Result<usize, DecodeError>)
    ensures
        len is Ok <==> frame_dimensions_ok((width, height)),
        len is Ok ==> len->Ok_0 == packed_len(width as nat, height as nat, 3),
        len is Err ==> len->Err_0 == DecodeError::PictureSize,
{
    if width == 0 || height == 0 || width > u32::MAX as usize || height > u32::MAX as usize {
        return Err(DecodeError::PictureSize);
    }
    if bgra_len(width as u32, height as u32).is_none() {
        return Err(DecodeError::PictureSize);
    }
    assert(width * height * 3 <= width * height * 4) by (nonlinear_arith);
    match rgb_len(width, height) {
        Some(len) => Ok(len),
        None => Err(DecodeError::PictureSize),
    }
}

/// Converts a decoded picture to a frame of packed RGB.
pub fn frame_from_picture(picture: &DecodedYUV<'_>) -> (made: Result<VideoFrame, DecodeError>)
    ensures
        made is Ok <==> frame_dimensions_ok(picture_dimensions(picture)),
        made is Ok ==> made->Ok_0@ == frame_of_picture(picture) && made->Ok_0@.is_presentable(),
        made is Err ==> made->Err_0 == DecodeError::PictureSize,
{
    let (width, height) = picture.dimension_rgb();
    match picture_buffer_len(width, height) {
        Err(error) => Err(error),
        Ok(len) => {
            let mut buffer: Vec<u8> = vec![0u8; len];
            picture.write_rgb8(buffer.as_mut_slice());
            Ok(VideoFrame { buffer, width, height })
        },
    }
}

/// `outcome` is what the decoder's answer `decoded` amounts to.
pub open spec fn is_outcome_of(
    outcome: DecodeOutcome,
    decoded: Result<Option<DecodedYUV<'_>>, Error>,
) -> bool {
    match decoded {
        Err(error) => {
            &&& outcome is Failed
            &&& outcome->Failed_0 is Bitstream
            &&& outcome->Failed_0->Bitstream_0@ == error_text(&error)
        },
        Ok(None) => outcome == DecodeOutcome::NoOutput,
        Ok(Some(picture)) => if frame_dimensions_ok(picture_dimensions(&picture)) {
            &&& outcome is Picture
            &&& outcome->Picture_0@ == frame_of_picture(&picture)
            &&& outcome->Picture_0@.is_presentable()
        } else {
            outcome == DecodeOutcome::Failed(DecodeError::PictureSize)
        },
    }
}

/// Sorts the decoder's answer into the three outcomes. An error of the
/// decoder keeps its text.
pub fn outcome_of(decoded: Result<Option<DecodedYUV<'_>>, Error>) -> (outcome: DecodeOutcome)
    ensures
        is_outcome_of(outcome, decoded),
{
    match decoded {
        Err(error) => DecodeOutcome::Failed(DecodeError::Bitstream(error_message(&error))),
        Ok(None) => DecodeOutcome::NoOutput,
        Ok(Some(picture)) => match frame_from_picture(&picture) {
            Ok(frame) => DecodeOutcome::Picture(frame),
            Err(error) => DecodeOutcome::Failed(error),
        },
    }
}

/// Creates a decoder with the default configuration.
pub fn new_decoder() -> (created: Result<Decoder, DecodeError>)
    ensures
        created is Err ==> created->Err_0 is Unavailable,
{
    match Decoder::new() {
        Ok(decoder) => Ok(decoder),
        Err(error) => Err(DecodeError::Unavailable(error_message(&error))),
    }
}

/// Decodes one packet. Whether a frame comes out is the decoder's matter; a
/// frame that does come out is well-formed and can be shown, and the only
/// errors are a rejected packet and a picture without a usable size.
pub fn decode_packet(decoder: &mut Decoder, packet: &[u8]) -> (outcome: DecodeOutcome)
    ensures
        outcome is Picture ==> outcome->Picture_0@.is_presentable(),
        outcome is Failed ==> !(outcome->Failed_0 is Unavailable),
{
    let decoded = decoder.decode(packet);
    outcome_of(decoded)
}

} // verus!
