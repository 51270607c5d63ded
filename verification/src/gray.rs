//! Grey images of the `image` crate: the buffer that rasters are drawn on and
//! read from, and what is trusted of it.

use vstd::prelude::*;

verus! {

/// An `image::ImageBuffer` of 8-bit grey pixels. The buffer's own declaration
/// is bounded by the trait `image::Pixel`, which cannot be stated here, so the
/// buffer is held in a field that is not looked into. Nothing is known of a
/// value but what `luma_pixels` and `luma_size` name.
#[verifier::external_body]
pub struct GrayBuffer {
    inner: image::ImageBuffer<image::Luma<u8>, Vec<u8>>,
}

/// The type `image::DynamicImage`, an image of any pixel type. Nothing is
/// known of a value of it but what `image_luma` and `image_size` name.
#[verifier::external_type_specification]
#[verifier::external_body]
pub struct ExDynamicImage(image::DynamicImage);

/// The pixels of an image of any pixel type as `image::DynamicImage::into_luma8`
/// turns them to grey, row after row from the top, each row from the left.
pub uninterp spec fn image_luma(img: image::DynamicImage) -> Seq<u8>;

/// The width and the height of an image of any pixel type, in pixels.
pub uninterp spec fn image_size(img: image::DynamicImage) -> (int, int);

/// Why a byte string is no image.
#[derive(Clone, Copy, Debug, PartialEq, Eq, Structural)]
pub enum LoadError {
    /// The bytes follow no known format, or break the rules of theirs.
    Decoding,
    /// The image cannot be written in the format chosen.
    Encoding,
    /// An argument of an operation on the image was out of range.
    Parameter,
    /// Reading the image would take more memory than is allowed.
    Limits,
    /// The format, or a feature of it, is not supported.
    Unsupported,
    /// Reading the bytes failed.
    Io,
}

/// The grey values of an image, row after row from the top, each row from the left.
pub uninterp spec fn luma_pixels(img: GrayBuffer) -> Seq<u8>;

/// The width and the height of an image, in pixels.
pub uninterp spec fn luma_size(img: GrayBuffer) -> (int, int);

/// What `image::imageops::resize` with the nearest-neighbour filter makes of
/// the grey values of an image of size `size`, asked for `width` by `height` pixels.
pub uninterp spec fn resampled(pixels: Seq<u8>, size: (int, int), width: int, height: int) -> Seq<u8>;

/// Calls `image::ImageBuffer::from_pixel` with a grey value. Trusted: the image
/// has the size asked for and every pixel has that value. The crate panics
/// where the buffer would be longer than a vector can be.
#[verifier::external_body]
pub(crate) fn filled(width: u32, height: u32, value: u8) -> (img: GrayBuffer)
    requires
        width * height <= isize::MAX,
    ensures
        luma_size(img) == (width as int, height as int),
        luma_pixels(img) == Seq::new((width * height) as nat, |i: int| value),
{
    GrayBuffer { inner: image::ImageBuffer::from_pixel(width, height, image::Luma([value])) }
}

/// Calls `image::ImageBuffer::put_pixel` with a grey value. Trusted: the pixel
/// at column `x` of row `y` takes the value, and nothing else changes. The
/// crate panics on a position outside the image.
#[verifier::external_body]
pub(crate) fn put_pixel(img: &mut GrayBuffer, x: u32, y: u32, value: u8)
    requires
        x < luma_size(*old(img)).0,
        y < luma_size(*old(img)).1,
    ensures
        luma_size(*final(img)) == luma_size(*old(img)),
        luma_pixels(*final(img)) == luma_pixels(*old(img)).update(
            y * luma_size(*old(img)).0 + x,
            value,
        ),
{
    img.inner.put_pixel(x, y, image::Luma([value]))
}

/// Calls `image::imageops::resize` with `FilterType::Nearest`. Trusted: the
/// result has the size asked for and one grey value for each of its pixels,
/// the values depend on the image and that size alone, and an image that
/// already has that size is copied. The crate first makes an image of the old
/// width and the new height with four 32-bit channels, and panics where that
/// one or the result would be longer than a vector can be.
#[verifier::external_body]
pub(crate) fn resize_nearest(img: &GrayBuffer, width: u32, height: u32) -> (out: GrayBuffer)
    requires
        16 * luma_size(*img).0 * height <= isize::MAX,
        width * height <= isize::MAX,
    ensures
        luma_size(out) == (width as int, height as int),
        luma_pixels(out) == resampled(
            luma_pixels(*img),
            luma_size(*img),
            width as int,
            height as int,
        ),
        luma_pixels(out).len() == width * height,
        luma_size(*img) == (width as int, height as int) ==> luma_pixels(out) == luma_pixels(*img),
{
    let filter = image::imageops::FilterType::Nearest;
    GrayBuffer { inner: image::imageops::resize(&img.inner, width, height, filter) }
}

/// Calls `image::ImageBuffer::dimensions`. Trusted: the result is the width
/// and the height.
#[verifier::external_body]
pub(crate) fn dimensions(img: &GrayBuffer) -> (size: (u32, u32))
    ensures
        luma_size(*img) == (size.0 as int, size.1 as int),
{
    img.inner.dimensions()
}

/// Calls `image::ImageBuffer::pixels` and takes the grey value of each pixel.
/// Trusted: the values come row after row, each row from the left, one for
/// each pixel of the image.
#[verifier::external_body]
pub(crate) fn pixel_values(img: &GrayBuffer) -> (values: Vec<u8>)
    ensures
        values@ == luma_pixels(*img),
        values@.len() == luma_size(*img).0 * luma_size(*img).1,
{
    img.inner.pixels().map(|p| p.0[0]).collect()
}

/// Calls `image::load_from_memory`, which guesses the format from the first
/// bytes. Nothing is claimed of the outcome: which formats are known depends
/// on how the crate was built and on the format hooks registered in the process.
#[verifier::external_body]
pub(crate) fn load_from_memory(bytes: &[u8]) -> (r: Result<image::DynamicImage, LoadError>) {
    match image::load_from_memory(bytes) {
        Ok(img) => Ok(img),
        Err(image::ImageError::Decoding(_)) => Err(LoadError::Decoding),
        Err(image::ImageError::Encoding(_)) => Err(LoadError::Encoding),
        Err(image::ImageError::Parameter(_)) => Err(LoadError::Parameter),
        Err(image::ImageError::Limits(_)) => Err(LoadError::Limits),
        Err(image::ImageError::Unsupported(_)) => Err(LoadError::Unsupported),
        Err(image::ImageError::IoError(_)) => Err(LoadError::Io),
    }
}

/// Calls `image::DynamicImage::into_luma8`. Trusted: the grey image has the
/// size of the image, and its grey values depend on the image alone.
#[verifier::external_body]
pub(crate) fn into_luma8(img: image::DynamicImage) -> (gray: GrayBuffer)
    ensures
        luma_size(gray) == image_size(img),
        luma_pixels(gray) == image_luma(img),
{
    GrayBuffer { inner: img.into_luma8() }
}

} // verus!
