//! Decoded images as the cache holds them.

use image::DynamicImage;
use std::sync::Arc;
use vstd::prelude::*;

verus! {

/// `image::DynamicImage`, carried through as an opaque value.
#[verifier::external_type_specification]
#[verifier::external_body]
pub struct ExDynamicImage(image::DynamicImage);

/// Calls `Arc::clone`: the result is a second handle to the same image, so
/// no pixel is copied and the two handles are equal.
#[verifier::external_body]
pub(crate) fn share_image(image: &Arc<DynamicImage>) -> (shared: Arc<DynamicImage>)
    ensures
        shared == *image,
{
    Arc::clone(image)
}

/// The image that `image::RgbaImage::from_raw` makes of a width, a height
/// and a buffer that holds their pixels, wrapped as
/// `DynamicImage::ImageRgba8`.
pub uninterp spec fn rgba_image_of(width: u32, height: u32, pixels: Seq<u8>) -> DynamicImage;

/// Calls `image::RgbaImage::from_raw` and wraps what it returns as
/// `DynamicImage::ImageRgba8`. That function yields an image exactly when the
/// buffer holds at least four bytes for each of the `width * height` pixels,
/// and the image is made of the width, the height and the buffer alone.
#[verifier::external_body]
pub(crate) fn rgba_image(width: u32, height: u32, pixels: Vec<u8>) -> (decoded: Option<DynamicImage>)
    ensures
        decoded is Some <==> 4 * (width as int) * (height as int) <= pixels@.len(),
        decoded is Some ==> decoded->0 == rgba_image_of(width, height, pixels@),
{
    image::RgbaImage::from_raw(width, height, pixels).map(DynamicImage::ImageRgba8)
}

/// Whether a buffer of `len` bytes holds an RGBA image of the given size.
pub open spec fn holds_rgba(width: u32, height: u32, len: nat) -> bool {
    4 * (width as int) * (height as int) <= len
}

} // verus!
