//! Encoding a frame buffer as a PNG stream, in memory.
//!
//! The `png` crate does the encoding. What it is trusted to do is stated on
//! [`png_encode_rgb8`]; everything else here is verified against that.

use vstd::prelude::*;

verus! {

/// The error type of the `png` encoder. Opaque: nothing is known of a value
/// but that it is one.
#[verifier::external_type_specification]
#[verifier::external_body]
pub struct ExEncodingError(png::EncodingError);

/// The PNG stream that the `png` encoder writes for an image of `width` by
/// `height` pixels, eight bits per channel, whose red, green and blue
/// samples are `data`, with the encoder's default compression and filter.
pub uninterp spec fn png_rgb8(width: u32, height: u32, data: Seq<u8>) -> Seq<u8>;

/// Why a frame buffer was not encoded.
#[derive(Clone, Copy, Debug, PartialEq, Eq, Structural)]
pub enum EncodeError {
    /// The image has no columns.
    ZeroWidth,
    /// The image has no rows.
    ZeroHeight,
    /// A row of the image, or the image as a whole, is longer than the
    /// encoder can take.
    TooLarge,
    /// The buffer does not hold three bytes for each pixel.
    BufferSize { expected: usize, actual: usize },
    /// The encoder failed although the image and the buffer were in order.
    EncoderFailure,
}

/// The size of the image is one that the encoder can take: the length of a
/// filtered row, `3 * width + 1` bytes, fits in 32 bits, and the filtered
/// rows together fit in a buffer.
pub open spec fn encodable_size(width: u32, height: u32) -> bool {
    &&& 3 * width + 1 <= u32::MAX
    &&& (3 * width + 1) * height <= isize::MAX
}

/// The image is not empty, of an encodable size, and `len` is the length of
/// its frame buffer.
pub open spec fn accepted(width: u32, height: u32, len: nat) -> bool {
    &&& width > 0
    &&& height > 0
    &&& encodable_size(width, height)
    &&& len == 3 * width * height
}

/// The reason for which an image with a frame buffer of `len` bytes is
/// rejected; `EncoderFailure` if there is none.
pub open spec fn rejection(width: u32, height: u32, len: usize) -> EncodeError {
    if width == 0 {
        EncodeError::ZeroWidth
    } else if height == 0 {
        EncodeError::ZeroHeight
    } else if !encodable_size(width, height) {
        EncodeError::TooLarge
    } else if len != 3 * width * height {
        EncodeError::BufferSize { expected: (3 * width * height) as usize, actual: len }
    } else {
        EncodeError::EncoderFailure
    }
}

/// Runs the `png` encoder on an RGB frame buffer and hands back the stream
/// it wrote: `png::Encoder::new` on a byte vector, `set_color` with
/// `ColorType::Rgb`, `set_depth` with `BitDepth::Eight`, `write_header`,
/// then `Writer::write_image_data`; dropping the writer ends the stream.
///
/// Trusted: the encoder fails exactly when the width or the height is zero
/// or the buffer does not hold `3 * width * height` bytes (writing into
/// memory cannot fail), and what it writes is a function of the size and the
/// samples alone. The size is required to be encodable because the encoder
/// multiplies the row length by the height, and its compressor counts the
/// zero bytes of a row in 32 bits, with no guard against overflow.
#[verifier::external_body]
fn png_encode_rgb8(
    width: u32,
    height: u32,
    data: &[u8],
) -> (r: Result<Vec<u8>, png::EncodingError>)
    requires
        width != 0 && height != 0 ==> encodable_size(width, height),
    ensures
        r is Ok <==> (width != 0 && height != 0 && data@.len() == 3 * width * height),
        r matches Ok(bytes) ==> bytes@ == png_rgb8(width, height, data@),
{
    let mut stream: Vec<u8> = Vec::new();
    {
        let mut encoder = png::Encoder::new(&mut stream, width, height);
        encoder.set_color(png::ColorType::Rgb);
        encoder.set_depth(png::BitDepth::Eight);
        let mut writer = encoder.write_header()?;
        writer.write_image_data(data)?;
    }
    Ok(stream)
}

/// Whether the encoder can take an image of `width` by `height` pixels.
pub fn size_is_encodable(width: u32, height: u32) -> (fits: bool)
    ensures
        fits == encodable_size(width, height),
{
    let row: u64 = 3 * (width as u64) + 1;
    if row > u32::MAX as u64 {
        return false;
    }
    assert(row * height <= 0x1_0000_0000int * 0x1_0000_0000int) by (nonlinear_arith)
        requires
            0 <= row <= 0x1_0000_0000,
            0 <= height <= 0x1_0000_0000,
    ;
    let rows: u128 = (row as u128) * (height as u128);
    rows <= isize::MAX as u128
}

/// What the outcome of the encoder means for an image of `width` by
/// `height` pixels with a frame buffer of `len` bytes: a stream is passed
/// on, a failure is replaced by the reason for which the image is rejected.
pub fn encode_outcome(
    width: u32,
    height: u32,
    len: usize,
    outcome: Result<Vec<u8>, png::EncodingError>,
) -> (r: Result<Vec<u8>, EncodeError>)
    ensures
        match outcome {
            Ok(stream) => r == Ok::<Vec<u8>, EncodeError>(stream),
            Err(_) => r == Err::<Vec<u8>, EncodeError>(rejection(width, height, len)),
        },
{
    match outcome {
        Ok(stream) => Ok(stream),
        Err(_) => {
            if width == 0 {
                Err(EncodeError::ZeroWidth)
            } else if height == 0 {
                Err(EncodeError::ZeroHeight)
            } else if !size_is_encodable(width, height) {
                Err(EncodeError::TooLarge)
            } else {
                assert(0 <= 3 * width * height <= (3 * width + 1) * height) by (nonlinear_arith);
                assert(3 * width <= (3 * width + 1) * height) by (nonlinear_arith)
                    requires
                        height >= 1,
                ;
                let expected = 3 * (width as usize) * (height as usize);
                if len != expected {
                    Err(EncodeError::BufferSize { expected, actual: len })
                } else {
                    Err(EncodeError::EncoderFailure)
                }
            }
        },
    }
}

/// Encodes a frame buffer of `width` by `height` RGB pixels, rows from the
/// top, as a PNG stream.
///
/// Succeeds exactly when the image is not empty, its size is encodable and
/// the buffer holds three bytes per pixel; otherwise says which of these
/// failed first.
pub fn encode_image(width: u32, height: u32, data: &[u8]) -> (r: Result<Vec<u8>, EncodeError>)
    ensures
        r is Ok <==> accepted(width, height, data@.len()),
        r matches Ok(stream) ==> stream@ == png_rgb8(width, height, data@),
        r matches Err(e) ==> e == rejection(width, height, data.len()) && e
            != EncodeError::EncoderFailure,
{
    if width > 0 && height > 0 && !size_is_encodable(width, height) {
        return Err(EncodeError::TooLarge);
    }
    encode_outcome(width, height, data.len(), png_encode_rgb8(width, height, data))
}

} // verus!
