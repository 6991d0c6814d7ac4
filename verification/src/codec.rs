//! Encoding: serializes an uncompressed RGB canvas as PNG or JPEG bytes.
//!
//! Both codecs come from the image crate; each is a pure function of the
//! pixel data and the dimensions, so its output is named rather than
//! described. An encoder that refuses its input (a zero-sized canvas, for
//! instance) reports failure instead of panicking.

use vstd::prelude::*;

verus! {

/// JPEG quality setting: high fidelity, since identicons are flat-colored.
pub const JPEG_QUALITY: u8 = 90;

/// The PNG encoding of a row-major 8-bit RGB pixel buffer.
pub uninterp spec fn png_of(width: u32, height: u32, pixels: Seq<u8>) -> Seq<u8>;

/// The JPEG encoding, at the given quality, of a row-major 8-bit RGB pixel
/// buffer.
pub uninterp spec fn jpeg_of(width: u32, height: u32, quality: u8, pixels: Seq<u8>) -> Seq<u8>;

/// Relies on image::codecs::png::PngEncoder::write_image: deterministic
/// PNG encoding of 8-bit RGB pixels. With a buffer of exactly
/// width*height*3 bytes it panics only on a length mismatch, which the
/// precondition excludes, and it fails exactly on a zero dimension — on
/// every other input it writes into the vector and succeeds.
#[verifier::external_body]
pub(crate) fn encode_png(width: u32, height: u32, pixels: &Vec<u8>) -> (r: Option<Vec<u8>>)
    requires
        pixels@.len() == 3 * width as int * height as int,
    ensures
        r matches Some(b) ==> b@ == png_of(width, height, pixels@),
        (r is Some) == (width > 0 && height > 0),
{
    let mut out: Vec<u8> = Vec::new();
    let enc = image::codecs::png::PngEncoder::new(&mut out);
    let res = image::ImageEncoder::write_image(
        enc,
        pixels.as_slice(),
        width,
        height,
        image::ExtendedColorType::Rgb8,
    );
    match res {
        Ok(()) => Some(out),
        Err(_) => None,
    }
}

/// Relies on image::codecs::jpeg::JpegEncoder::encode: deterministic JPEG
/// encoding of 8-bit RGB pixels at a fixed quality. With a buffer of
/// exactly width*height*3 bytes it panics only on a length mismatch,
/// which the precondition excludes, and it fails exactly on dimensions
/// outside the format's 1 to 65535 range — on every other input it writes
/// into the vector and succeeds.
#[verifier::external_body]
pub(crate) fn encode_jpeg(width: u32, height: u32, quality: u8, pixels: &Vec<u8>) -> (r: Option<
    Vec<u8>,
>)
    requires
        pixels@.len() == 3 * width as int * height as int,
    ensures
        r matches Some(b) ==> b@ == jpeg_of(width, height, quality, pixels@),
        (r is Some) == (1 <= width <= 65535 && 1 <= height <= 65535),
{
    let mut out: Vec<u8> = Vec::new();
    let mut enc = image::codecs::jpeg::JpegEncoder::new_with_quality(&mut out, quality);
    let res = enc.encode(pixels.as_slice(), width, height, image::ExtendedColorType::Rgb8);
    match res {
        Ok(()) => Some(out),
        Err(_) => None,
    }
}

} // verus!
