use vstd::prelude::*;

use ::image::ImageEncoder;

use crate::error::Error;

verus! {

/// An image as rows of RGBA pixels, four bytes each, top row first.
#[derive(Debug)]
pub struct ImageData {
    pub width: usize,
    pub height: usize,
    pub bytes: Vec<u8>,
}

/// The PNG file that the `image` crate's encoder writes for RGBA8 pixels of
/// the given size, or `None` where it reports an error.
pub uninterp spec fn png_encoding(rgba: Seq<u8>, width: u32, height: u32) -> Option<Seq<u8>>;

/// The size and RGBA8 pixels that the `image` crate decodes from a PNG file,
/// or `None` where it reports an error.
pub uninterp spec fn png_decoding(png: Seq<u8>) -> Option<(u32, u32, Seq<u8>)>;

/// Relies on `image::codecs::png::PngEncoder::write_image`, which panics
/// unless the buffer holds exactly four bytes per pixel.
#[verifier::external_body]
fn png_encode(rgba: &[u8], width: u32, height: u32) -> (r: Option<Vec<u8>>)
    requires
        width > 0,
        height > 0,
        rgba@.len() == 4 * width * height,
    ensures
        match r {
            Some(v) => png_encoding(rgba@, width, height) == Some(v@),
            None => png_encoding(rgba@, width, height) is None,
        },
{
    let mut png = Vec::new();
    let encoder = ::image::codecs::png::PngEncoder::new(&mut png);
    match encoder.write_image(rgba, width, height, ::image::ExtendedColorType::Rgba8) {
        Ok(()) => Some(png),
        Err(_) => None,
    }
}

/// Relies on `image::load_from_memory_with_format` with the format PNG, and on
/// `DynamicImage::into_rgba8` to turn the result into RGBA8 pixels.
#[verifier::external_body]
fn png_decode(png: &[u8]) -> (r: Option<(u32, u32, Vec<u8>)>)
    ensures
        match r {
            Some((w, h, px)) => png_decoding(png@) == Some((w, h, px@)),
            None => png_decoding(png@) is None,
        },
{
    match ::image::load_from_memory_with_format(png, ::image::ImageFormat::Png) {
        Ok(img) => {
            let img = img.into_rgba8();
            Some((img.width(), img.height(), img.into_raw()))
        },
        Err(_) => None,
    }
}

/// Whether `image` can be encoded: it has pixels, and its buffer holds four
/// bytes for each of them.
pub open spec fn is_encodable(image: &ImageData) -> bool {
    &&& image.bytes@.len() > 0
    &&& image.width > 0
    &&& image.height > 0
    &&& image.width <= u32::MAX
    &&& image.height <= u32::MAX
    &&& image.bytes@.len() == 4 * image.width * image.height
}

/// The image as a PNG file; `ConversionFailure` where it cannot be encoded.
pub fn encode_as_png(image: &ImageData) -> (r: Result<Vec<u8>, Error>)
    ensures
        !is_encodable(image) ==> r matches Err(Error::ConversionFailure),
        is_encodable(image) ==> match png_encoding(
            image.bytes@,
            image.width as u32,
            image.height as u32,
        ) {
            Some(png) => r matches Ok(v) && v@ == png,
            None => r matches Err(Error::ConversionFailure),
        },
{
    if image.bytes.len() == 0 || image.width == 0 || image.height == 0 {
        return Err(Error::ConversionFailure);
    }
    if image.width > u32::MAX as usize || image.height > u32::MAX as usize {
        return Err(Error::ConversionFailure);
    }
    let w = image.width as u64;
    let h = image.height as u64;
    assert(w * h <= u64::MAX) by (nonlinear_arith)
        requires
            w <= u32::MAX,
            h <= u32::MAX,
    ;
    let pixels = w * h;
    assert(4 * image.width * image.height == 4 * pixels) by (nonlinear_arith)
        requires
            pixels == w * h,
            w == image.width,
            h == image.height,
    ;
    if pixels > u64::MAX / 4 || image.bytes.len() as u64 != pixels * 4 {
        return Err(Error::ConversionFailure);
    }
    match png_encode(image.bytes.as_slice(), image.width as u32, image.height as u32) {
        Some(png) => Ok(png),
        None => Err(Error::ConversionFailure),
    }
}

/// The image in a PNG file; `ConversionFailure` where it cannot be decoded.
pub fn decode_png(png: &[u8]) -> (r: Result<ImageData, Error>)
    ensures
        match png_decoding(png@) {
            Some((w, h, px)) => r matches Ok(img) && img.width == w && img.height == h
                && img.bytes@ == px,
            None => r matches Err(Error::ConversionFailure),
        },
{
    match png_decode(png) {
        Some((w, h, px)) => Ok(ImageData { width: w as usize, height: h as usize, bytes: px }),
        None => Err(Error::ConversionFailure),
    }
}

} // verus!
