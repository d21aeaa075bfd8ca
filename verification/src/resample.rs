//! Scaling an image to new dimensions with the triangle filter of the
//! `image` crate.

use vstd::prelude::*;
use crate::grid::{bytes_of_pixels, pixels_of_bytes, lemma_pixels_round_trip, PixelGrid};

verus! {

/// The largest width or height, of the source or of the result, that
/// [`downscale`] takes: 2^20 pixels. The resampler places its sample points
/// in single precision; up to this size a sample point is off by at most an
/// eighth of a pixel, so the pixel under it always carries weight.
pub const MAX_DIMENSION: u32 = 0x10_0000;

/// Whether an image of `width` by `height` pixels can be scaled to
/// `new_width` by `new_height`: no dimension is above [`MAX_DIMENSION`], and
/// both the result and the intermediate picture of `width` by `new_height`
/// pixels, which holds four 4-byte samples per pixel, fit in memory.
pub open spec fn resizable(width: int, height: int, new_width: int, new_height: int) -> bool {
    &&& 0 <= width <= MAX_DIMENSION
    &&& 0 <= height <= MAX_DIMENSION
    &&& 0 <= new_width <= MAX_DIMENSION
    &&& 0 <= new_height <= MAX_DIMENSION
    &&& 16 * (width * new_height) <= isize::MAX
    &&& 4 * (new_width * new_height) <= isize::MAX
}

/// Decides [`resizable`].
fn can_resize(width: u32, height: u32, new_width: u32, new_height: u32) -> (ok: bool)
    ensures
        ok == resizable(width as int, height as int, new_width as int, new_height as int),
{
    if width > MAX_DIMENSION || height > MAX_DIMENSION || new_width > MAX_DIMENSION || new_height
        > MAX_DIMENSION {
        return false;
    }
    assert(width * new_height <= 0x10_0000 * 0x10_0000 && new_width * new_height <= 0x10_0000
        * 0x10_0000) by (nonlinear_arith)
        requires
            width <= 0x10_0000,
            new_width <= 0x10_0000,
            new_height <= 0x10_0000,
    ;
    let limit: u64 = isize::MAX as u64;
    let between: u64 = 16 * ((width as u64) * (new_height as u64));
    let after: u64 = 4 * ((new_width as u64) * (new_height as u64));
    between <= limit && after <= limit
}

/// The R, G, B, A bytes of the picture that `image::imageops::resize`
/// computes with `FilterType::Triangle` from a picture of `width` by
/// `height` pixels stored in `bytes`, asked for `new_width` by `new_height`
/// pixels.
pub uninterp spec fn triangle_resized(
    bytes: Seq<u8>,
    width: u32,
    height: u32,
    new_width: u32,
    new_height: u32,
) -> Seq<u8>;

/// Calls `image::imageops::resize` with `FilterType::Triangle` on an RGBA
/// picture given as raw bytes.
///
/// Trusted, not proved: the result is a function of the arguments alone
/// (the filter is plain single-precision arithmetic on them); it holds
/// exactly `new_width * new_height` pixels; and when the dimensions asked
/// for are those of the source, `resize` copies the source pixel by pixel.
/// The preconditions keep the call away from the crate's panics: a buffer
/// shorter than the picture, a picture too large to allocate, and
/// dimensions so large that single-precision coordinates lose the pixel
/// under the sample point.
#[verifier::external_body]
fn resize_triangle(
    bytes: &Vec<u8>,
    width: u32,
    height: u32,
    new_width: u32,
    new_height: u32,
) -> (out: Vec<u8>)
    requires
        bytes@.len() == 4 * (width * height),
        resizable(width as int, height as int, new_width as int, new_height as int),
    ensures
        out@ == triangle_resized(bytes@, width, height, new_width, new_height),
        out@.len() == 4 * (new_width * new_height),
        new_width == width && new_height == height ==> out@ == bytes@,
{
    let source = image::ImageBuffer::<image::Rgba<u8>, &[u8]>::from_raw(
        width,
        height,
        bytes.as_slice(),
    ).unwrap();
    let filter = image::imageops::FilterType::Triangle;
    image::imageops::resize(&source, new_width, new_height, filter).into_raw()
}

/// Scales `img` to `new_width` by `new_height` pixels with the triangle
/// filter, if the sizes allow it (see [`resizable`]). Asked for the
/// dimensions that `img` already has, it returns a copy.
pub fn downscale(img: &PixelGrid, new_width: u32, new_height: u32) -> (out: Option<PixelGrid>)
    ensures
        out is Some <==> resizable(
            img@.width as int,
            img@.height as int,
            new_width as int,
            new_height as int,
        ),
        out matches Some(scaled) ==> {
            &&& scaled@.width == new_width
            &&& scaled@.height == new_height
            &&& scaled@.wf()
            &&& scaled@.pixels == pixels_of_bytes(
                triangle_resized(
                    bytes_of_pixels(img@.pixels),
                    img@.width as u32,
                    img@.height as u32,
                    new_width,
                    new_height,
                ),
            )
            &&& new_width == img@.width && new_height == img@.height ==> scaled@.pixels
                == img@.pixels
        },
{
    let width: u32 = img.width();
    let height: u32 = img.height();
    if !can_resize(width, height, new_width, new_height) {
        return None;
    }
    let resized: Vec<u8> = resize_triangle(img.as_raw(), width, height, new_width, new_height);
    proof {
        lemma_pixels_round_trip(img@.pixels);
    }
    PixelGrid::from_raw(new_width, new_height, resized)
}

} // verus!
