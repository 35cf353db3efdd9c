//! Turning an embedded thumbnail into an image: base64 decoding, image
//! decoding, and downscaling to the requested size.

use base64::Engine;
use vstd::prelude::*;
use vstd::utf8::encode_utf8;

use crate::embedded_thumbnail::Thumbnail;

verus! {

/// `base64::DecodeError`, carried through opaquely.
#[verifier::external_type_specification]
#[verifier::external_body]
pub struct ExDecodeError(base64::DecodeError);

/// `image::DynamicImage`, a decoded image, opaque but for [`image_dimensions`].
#[verifier::external_type_specification]
#[verifier::external_body]
pub struct ExDynamicImage(image::DynamicImage);

/// `image::ImageError`, carried through opaquely.
#[verifier::external_type_specification]
#[verifier::external_body]
pub struct ExImageError(image::ImageError);

/// What the standard base64 engine (standard alphabet, canonical padding)
/// decodes `input` to, or `None` when it rejects `input`.
pub uninterp spec fn base64_standard_decode(input: Seq<u8>) -> Option<Seq<u8>>;

/// Calls `base64::engine::general_purpose::STANDARD.decode`. Claimed: the
/// call succeeds exactly when [`base64_standard_decode`] gives a value, and then
/// returns that value; the result depends on the input bytes alone.
#[verifier::external_body]
fn decode_base64(input: &[u8]) -> (r: Result<Vec<u8>, base64::DecodeError>)
    ensures
        r is Ok <==> base64_standard_decode(input@) is Some,
        r matches Ok(bytes) ==> base64_standard_decode(input@) == Some(bytes@),
{
    base64::engine::general_purpose::STANDARD.decode(input)
}

/// The image that `image::load_from_memory` decodes from `bytes`, or `None`
/// when it fails. The format is guessed from the first bytes by the crate's
/// built-in signatures (no format-detection hook is ever registered here).
pub uninterp spec fn decoded_image(bytes: Seq<u8>) -> Option<image::DynamicImage>;

/// Calls `image::load_from_memory`, which guesses the format of an encoded
/// image from its first bytes and decodes it. Claimed: it succeeds exactly when
/// [`decoded_image`] gives an image, and then returns that image.
#[verifier::external_body]
fn load_from_memory(bytes: &[u8]) -> (r: Result<image::DynamicImage, image::ImageError>)
    ensures
        r is Ok <==> decoded_image(bytes@) is Some,
        r matches Ok(img) ==> decoded_image(bytes@) == Some(img),
{
    image::load_from_memory(bytes)
}

/// The width and the height, in pixels, of a decoded image.
pub uninterp spec fn image_dimensions(image: image::DynamicImage) -> (u32, u32);

/// Calls `DynamicImage::width`. Claimed: it returns the width of the image,
/// the first of [`image_dimensions`].
#[verifier::external_body]
fn image_width(image: &image::DynamicImage) -> (w: u32)
    ensures
        w == image_dimensions(*image).0,
{
    image.width()
}

/// Calls `DynamicImage::height`. Claimed: it returns the height of the image,
/// the second of [`image_dimensions`].
#[verifier::external_body]
fn image_height(image: &image::DynamicImage) -> (h: u32)
    ensures
        h == image_dimensions(*image).1,
{
    image.height()
}

/// The resampling filters of `image::imageops::FilterType`.
#[derive(Debug, Clone, Copy, PartialEq, Eq, Structural)]
pub enum ResizeFilter {
    Nearest,
    Triangle,
    CatmullRom,
    Gaussian,
    Lanczos3,
}

/// The image that `DynamicImage::resize` makes of `image` for the bounds
/// `width` by `height` and the filter `filter`.
pub uninterp spec fn resized_image(
    image: image::DynamicImage,
    width: u32,
    height: u32,
    filter: ResizeFilter,
) -> image::DynamicImage;

/// Calls `DynamicImage::resize`, which scales the image, keeping its aspect
/// ratio, to the largest size that fits within `width` by `height`. Claimed:
/// the result is [`resized_image`] of the arguments, and for nonzero bounds it
/// fits within them (for a zero bound a side comes out as one pixel, so
/// nothing is claimed there).
#[verifier::external_body]
fn resize_image(image: &image::DynamicImage, width: u32, height: u32, filter: ResizeFilter) -> (r:
    image::DynamicImage)
    ensures
        r == resized_image(*image, width, height, filter),
        width >= 1 && height >= 1 ==> image_dimensions(r).0 <= width && image_dimensions(r).1
            <= height,
{
    let filter = match filter {
        ResizeFilter::Nearest => image::imageops::FilterType::Nearest,
        ResizeFilter::Triangle => image::imageops::FilterType::Triangle,
        ResizeFilter::CatmullRom => image::imageops::FilterType::CatmullRom,
        ResizeFilter::Gaussian => image::imageops::FilterType::Gaussian,
        ResizeFilter::Lanczos3 => image::imageops::FilterType::Lanczos3,
    };
    image.resize(width, height, filter)
}

/// Why an embedded thumbnail could not be turned into an image.
#[derive(Debug)]
pub enum EmbeddedImageError {
    /// The thumbnail's data is not valid base64.
    Base64(base64::DecodeError),
    /// The decoded bytes are not an image in a format that can be read.
    Image(image::ImageError),
}

/// The bytes that a thumbnail's data encodes: its base64 text, as UTF-8, decoded.
pub open spec fn thumbnail_bytes(thumbnail: Thumbnail) -> Option<Seq<u8>> {
    base64_standard_decode(encode_utf8(thumbnail.data@))
}

/// Decodes the base64 data of an embedded thumbnail.
pub fn decode_thumbnail_data(thumbnail: &Thumbnail) -> (r: Result<Vec<u8>, EmbeddedImageError>)
    ensures
        r is Ok <==> thumbnail_bytes(*thumbnail) is Some,
        r matches Ok(bytes) ==> thumbnail_bytes(*thumbnail) == Some(bytes@),
        r matches Err(e) ==> e is Base64,
{
    match decode_base64(thumbnail.data.as_str().as_bytes()) {
        Ok(bytes) => Ok(bytes),
        Err(e) => Err(EmbeddedImageError::Base64(e)),
    }
}

/// Whether an image of `width` by `height` pixels is to be scaled down to fit
/// a square of `size` pixels: thumbnails are downscaled, never upscaled.
pub open spec fn needs_downscale(width: u32, height: u32, size: u32) -> bool {
    width > size || height > size
}

/// An image fitted into a square of the requested size.
pub struct FittedImage {
    pub image: image::DynamicImage,
    /// The width of the image before fitting.
    pub source_width: u32,
    /// The height of the image before fitting.
    pub source_height: u32,
    /// Whether the image was scaled down.
    pub downscaled: bool,
}

/// Scales `image` down, with a triangle filter and keeping its aspect ratio, to
/// fit within a square of `size` pixels when it is larger; leaves it as it is
/// otherwise.
pub fn fit_to_size(image: image::DynamicImage, size: u32) -> (r: FittedImage)
    ensures
        r.source_width == image_dimensions(image).0,
        r.source_height == image_dimensions(image).1,
        r.downscaled == needs_downscale(r.source_width, r.source_height, size),
        !r.downscaled ==> r.image == image,
        r.downscaled ==> r.image == resized_image(image, size, size, ResizeFilter::Triangle),
        size >= 1 ==> image_dimensions(r.image).0 <= size && image_dimensions(r.image).1 <= size,
        r == fitted(image, size),
        image_dimensions(image).0 <= size && image_dimensions(image).1 <= size ==> !r.downscaled
            && r.image == image,
{
    let width = image_width(&image);
    let height = image_height(&image);
    if width > size || height > size {
        let resized = resize_image(&image, size, size, ResizeFilter::Triangle);
        FittedImage { image: resized, source_width: width, source_height: height, downscaled: true }
    } else {
        FittedImage { image, source_width: width, source_height: height, downscaled: false }
    }
}

/// The image an embedded thumbnail holds, if its data decodes to one.
pub open spec fn thumbnail_image(thumbnail: Thumbnail) -> Option<image::DynamicImage> {
    match thumbnail_bytes(thumbnail) {
        Some(bytes) => decoded_image(bytes),
        None => None,
    }
}

/// What fitting `image` into a square of `size` pixels gives.
pub open spec fn fitted(image: image::DynamicImage, size: u32) -> FittedImage {
    let (w, h) = image_dimensions(image);
    FittedImage {
        image: if needs_downscale(w, h, size) {
            resized_image(image, size, size, ResizeFilter::Triangle)
        } else {
            image
        },
        source_width: w,
        source_height: h,
        downscaled: needs_downscale(w, h, size),
    }
}

/// Turns an embedded thumbnail into an image that fits a square of `size`
/// pixels: decodes its base64 data, decodes the image, and scales it down if
/// it is larger than `size`.
pub fn load_embedded_thumbnail(thumbnail: &Thumbnail, size: u32) -> (r: Result<
    FittedImage,
    EmbeddedImageError,
>)
    ensures
        r matches Err(EmbeddedImageError::Base64(_)) <==> thumbnail_bytes(*thumbnail) is None,
        r is Ok <==> thumbnail_image(*thumbnail) is Some,
        r matches Ok(f) ==> f == fitted(thumbnail_image(*thumbnail)->0, size),
        r matches Ok(f) ==> size >= 1 ==> image_dimensions(f.image).0 <= size
            && image_dimensions(f.image).1 <= size,
{
    let bytes = match decode_thumbnail_data(thumbnail) {
        Ok(bytes) => bytes,
        Err(e) => {
            return Err(e);
        },
    };
    let image = match load_from_memory(bytes.as_slice()) {
        Ok(image) => image,
        Err(e) => {
            return Err(EmbeddedImageError::Image(e));
        },
    };
    Ok(fit_to_size(image, size))
}

/// Embedded thumbnails are never upscaled: an image that already fits the
/// square is returned as it is, and only an image with a side longer than the
/// square is resized, to one that fits it.
pub proof fn lemma_fitting_only_downscales(image: image::DynamicImage, size: u32)
    ensures
        ({
            let (w, h) = image_dimensions(image);
            let f = fitted(image, size);
            &&& w <= size && h <= size ==> !f.downscaled && f.image == image
            &&& w > size || h > size ==> f.downscaled && f.image == resized_image(
                image,
                size,
                size,
                ResizeFilter::Triangle,
            )
            &&& f.source_width == w && f.source_height == h
        }),
{
}

} // verus!
