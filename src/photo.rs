//! Still photos: a captured RGB frame becomes a lossless WebP file.
use vstd::prelude::*;

verus! {

/// Why a photo could not be encoded.
#[derive(Clone, Copy, Debug, PartialEq, Eq, Structural)]
pub enum PhotoError {
    /// The pixels do not fill a `width` by `height` RGB picture exactly.
    Size,
    /// A side is empty or longer than the WebP format allows.
    Dimensions,
}

/// The longest side of a WebP picture.
pub const MAX_WEBP_SIDE: u32 = 16384;

/// The lossless WebP file of a `width` by `height` picture of RGB pixels.
pub uninterp spec fn webp_lossless(width: u32, height: u32, rgb: Seq<u8>) -> Seq<u8>;

/// Whether a picture of these sides can be a WebP file.
pub open spec fn webp_sides(width: u32, height: u32) -> bool {
    1 <= width <= MAX_WEBP_SIDE && 1 <= height <= MAX_WEBP_SIDE
}

/// Relies on `image::ImageBuffer::from_raw` and `write_to` with
/// `ImageOutputFormat::WebP`: the pure-Rust lossless encoder, which depends
/// on the pixels alone. `from_raw` takes a buffer of exactly the picture's
/// size, and the encoder refuses only a side of 0 or above 16384.
#[verifier::external_body]
fn write_webp(width: u32, height: u32, rgb: &Vec<u8>) -> (r: Option<Vec<u8>>)
    requires
        rgb@.len() == width * height * 3,
    ensures
        (r is Some) == webp_sides(width, height),
        r matches Some(b) ==> b@ == webp_lossless(width, height, rgb@),
{
    let img = image::RgbImage::from_raw(width, height, rgb.clone())?;
    let mut out: Vec<u8> = Vec::new();
    img.write_to(&mut std::io::Cursor::new(&mut out), image::ImageOutputFormat::WebP).ok()?;
    Some(out)
}

/// Encodes a captured `width` by `height` RGB frame as a lossless WebP photo.
pub fn encode_photo(width: u32, height: u32, rgb: &Vec<u8>) -> (r: Result<Vec<u8>, PhotoError>)
    ensures
        rgb@.len() != width * height * 3 ==> r == Err::<Vec<u8>, PhotoError>(PhotoError::Size),
        rgb@.len() == width * height * 3 && !webp_sides(width, height) ==> r == Err::<
            Vec<u8>,
            PhotoError,
        >(PhotoError::Dimensions),
        rgb@.len() == width * height * 3 && webp_sides(width, height) ==> (r matches Ok(b) && b@
            == webp_lossless(width, height, rgb@)),
{
    assert(0 <= width as int * height as int <= 0xffff_ffff * 0xffff_ffff) by (nonlinear_arith)
        requires
            width <= 0xffff_ffff,
            height <= 0xffff_ffff,
    ;
    let need = width as u128 * height as u128 * 3;
    if rgb.len() as u128 != need {
        return Err(PhotoError::Size);
    }
    if width < 1 || width > MAX_WEBP_SIDE || height < 1 || height > MAX_WEBP_SIDE {
        return Err(PhotoError::Dimensions);
    }
    match write_webp(width, height, rgb) {
        Some(b) => Ok(b),
        None => Err(PhotoError::Dimensions),
    }
}

} // verus!
