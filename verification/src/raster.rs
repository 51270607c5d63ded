//! Grey rasters as plain values.

use crate::gray::{
    dimensions, image_luma, image_size, into_luma8, load_from_memory, luma_pixels, luma_size,
    pixel_values, GrayBuffer, LoadError,
};
use vstd::prelude::*;

verus! {

/// A grey image: its size and one byte for each pixel, row after row from the
/// top, each row from the left; 0 is black and 255 is white.
#[derive(Debug)]
pub struct Raster {
    width: u32,
    height: u32,
    pixels: Vec<u8>,
}

impl Raster {
    #[verifier::type_invariant]
    spec fn complete(&self) -> bool {
        self.pixels@.len() == self.width * self.height
    }

    /// The width in pixels.
    pub closed spec fn spec_width(&self) -> u32 {
        self.width
    }

    /// The height in pixels.
    pub closed spec fn spec_height(&self) -> u32 {
        self.height
    }

    /// The grey values, row after row.
    pub closed spec fn spec_pixels(&self) -> Seq<u8> {
        self.pixels@
    }

    /// A raster of the given size over the given grey values, if there is one
    /// value for each pixel.
    pub fn new(width: u32, height: u32, pixels: Vec<u8>) -> (r: Option<Raster>)
        ensures
            r is Some <==> pixels@.len() == width * height,
            r matches Some(raster) ==> raster.width() == width && raster.height() == height
                && raster.spec_pixels() == pixels@,
    {
        assert(width * height <= 0xffff_ffff * 0xffff_ffff) by (nonlinear_arith)
            requires
                0 <= width <= 0xffff_ffff,
                0 <= height <= 0xffff_ffff,
        ;
        let area: u64 = (width as u64) * (height as u64);
        if pixels.len() as u64 == area {
            Some(Raster { width, height, pixels })
        } else {
            None
        }
    }

    /// The width in pixels.
    #[verifier::when_used_as_spec(spec_width)]
    pub fn width(&self) -> (w: u32)
        ensures
            w == self.spec_width(),
    {
        self.width
    }

    /// The height in pixels.
    #[verifier::when_used_as_spec(spec_height)]
    pub fn height(&self) -> (h: u32)
        ensures
            h == self.spec_height(),
    {
        self.height
    }

    /// The grey values, row after row: as many as `width * height`.
    pub fn pixels(&self) -> (p: &Vec<u8>)
        ensures
            p@ == self.spec_pixels(),
            p@.len() == self.width() * self.height(),
    {
        proof {
            use_type_invariant(self);
        }
        &self.pixels
    }

    /// The size and the grey values of an image buffer.
    pub fn from_buffer(img: &GrayBuffer) -> (raster: Raster)
        ensures
            (raster.width() as int, raster.height() as int) == luma_size(*img),
            raster.spec_pixels() == luma_pixels(*img),
    {
        let (width, height) = dimensions(img);
        let pixels = pixel_values(img);
        Raster { width, height, pixels }
    }
}

/// What the outcome of reading an image gives: the image turned to grey, with
/// its size and a grey value for each pixel, or the error of the reading
/// handed on.
pub fn gray_of_loaded(loaded: Result<image::DynamicImage, LoadError>) -> (r: Result<
    Raster,
    LoadError,
>)
    ensures
        match (loaded, r) {
            (Ok(img), Ok(raster)) => {
                &&& (raster.width() as int, raster.height() as int) == image_size(img)
                &&& raster.spec_pixels() == image_luma(img)
                &&& raster.spec_pixels().len() == raster.width() * raster.height()
            },
            (Err(e), Err(handed)) => handed == e,
            _ => false,
        },
{
    match loaded {
        Ok(img) => {
            let raster = Raster::from_buffer(&into_luma8(img));
            proof {
                use_type_invariant(&raster);
            }
            Ok(raster)
        },
        Err(e) => Err(e),
    }
}

/// Reads an image from the bytes of a file, in whichever of the known formats
/// its first bytes show, and turns it to grey. Which bytes are an image, and
/// which image, is for the `image` crate to say; the raster that comes back
/// has a grey value for each pixel.
pub fn load_gray(bytes: &[u8]) -> (r: Result<Raster, LoadError>)
    ensures
        r matches Ok(raster) ==> raster.spec_pixels().len() == raster.width() * raster.height(),
{
    gray_of_loaded(load_from_memory(bytes))
}

} // verus!
