//! A symbol as a grey raster, each module a square of pixels.

use crate::gray::{filled, luma_pixels, luma_size, put_pixel, resampled, resize_nearest};
use crate::raster::Raster;
use crate::svg::svg_dimension;
use crate::symbol::{is_square, module_at, SymbolMatrix};
use vstd::arithmetic::div_mod::{lemma_fundamental_div_mod, lemma_fundamental_div_mod_converse};
use vstd::prelude::*;

verus! {

/// The grey value of a module: black for a dark one, white for a light one.
pub open spec fn module_grey(dark: bool) -> u8 {
    if dark {
        0
    } else {
        255
    }
}

/// The raster with one pixel to a module: the symbol with `border` white
/// pixels on each side.
pub open spec fn module_raster(grid: Seq<Seq<bool>>, border: int) -> Seq<u8> {
    let width = grid.len() + 2 * border;
    Seq::new(
        (width * width) as nat,
        |i: int| module_grey(module_at(grid, i % width - border, i / width - border)),
    )
}

/// Whether the raster of a symbol of side `side` can be made: its side must
/// fit the 32 bits that an image's side has, and the raster and the
/// intermediate image of the resampling, which has sixteen bytes to a pixel,
/// the old width and the new height, must fit a vector.
pub open spec fn raster_fits(side: int, border: int, scale: int) -> bool {
    let width = side + 2 * border;
    let scaled = width * scale;
    &&& scaled <= u32::MAX
    &&& 16 * width * scaled <= isize::MAX
    &&& scaled * scaled <= isize::MAX
}

/// The raster while it is painted: the modules before column `x` of row `y`
/// are in, the later ones are still white.
spec fn painted(grid: Seq<Seq<bool>>, border: int, x: int, y: int) -> Seq<u8> {
    let width = grid.len() + 2 * border;
    Seq::new(
        (width * width) as nat,
        |i: int|
            {
                let column = i % width - border;
                let row = i / width - border;
                module_grey(module_at(grid, column, row) && (row < y || (row == y && column < x)))
            },
    )
}

/// Tests `raster_fits` for a symbol of side `side` and a border that is not
/// negative.
pub fn fits_raster(side: usize, border: i32, scale_factor: u32) -> (fits: bool)
    requires
        border >= 0,
    ensures
        fits == raster_fits(side as int, border as int, scale_factor as int),
{
    let width: u128 = side as u128 + 2 * (border as u128);
    if scale_factor == 0 {
        assert(width * 0 == 0 && 16 * width * 0 == 0);
        return true;
    }
    if width > u32::MAX as u128 {
        assert(width * scale_factor >= width) by (nonlinear_arith)
            requires
                width >= 0,
                scale_factor >= 1,
        ;
        return false;
    }
    assert(width * scale_factor <= 0x1_0000_0000 * 0x1_0000_0000) by (nonlinear_arith)
        requires
            0 <= width <= 0x1_0000_0000,
            0 <= scale_factor <= 0x1_0000_0000,
    ;
    let scaled: u128 = width * (scale_factor as u128);
    if scaled > u32::MAX as u128 {
        return false;
    }
    assert(16 * width * scaled <= 16 * 0x1_0000_0000 * 0x1_0000_0000 && scaled * scaled
        <= 0x1_0000_0000 * 0x1_0000_0000) by (nonlinear_arith)
        requires
            0 <= width <= 0x1_0000_0000,
            0 <= scaled <= 0x1_0000_0000,
    ;
    16 * width * scaled <= isize::MAX as u128 && scaled * scaled <= isize::MAX as u128
}

/// The raster of a symbol with `border` white modules around it, each module
/// `scale_factor` pixels wide, made by resampling the raster that has one
/// pixel to a module. It is as wide and as high as the SVG drawing with the
/// same border and scale.
pub fn to_scaled_raster(matrix: &SymbolMatrix, border: i32, scale_factor: u32) -> (raster: Raster)
    requires
        border >= 0,
        scale_factor >= 1,
        raster_fits(matrix@.len() as int, border as int, scale_factor as int),
    ensures
        raster.width() == (matrix@.len() + 2 * border) * scale_factor,
        raster.height() == raster.width(),
        raster.width() == svg_dimension(matrix@.len() as int, border as int, scale_factor as int),
        raster.spec_pixels() == resampled(
            module_raster(matrix@, border as int),
            (matrix@.len() + 2 * border, matrix@.len() + 2 * border),
            raster.width() as int,
            raster.width() as int,
        ),
        scale_factor == 1 ==> raster.spec_pixels() == module_raster(matrix@, border as int),
        border == 0 && scale_factor == 1 ==> raster.width() == matrix@.len(),
{
    let side = matrix.side();
    let ghost grid = matrix@;
    let ghost wide = side + 2 * border;
    assert(wide <= wide * scale_factor && wide * wide <= (wide * scale_factor) * (wide
        * scale_factor)) by (nonlinear_arith)
        requires
            scale_factor >= 1,
            wide >= 0,
    ;
    let b = border as u32;
    let width: u32 = side as u32 + 2 * b;
    let scaled: u32 = width * scale_factor;
    let mut img = filled(width, width, 255);
    assert(luma_pixels(img) =~= painted(grid, border as int, 0, 0));
    let mut y: usize = 0;
    while y < side
        invariant
            grid == matrix@,
            is_square(grid),
            side == grid.len(),
            b == border,
            width == side + 2 * b,
            0 <= y <= side,
            luma_size(img) == (width as int, width as int),
            luma_pixels(img) == painted(grid, border as int, 0, y as int),
        decreases side - y,
    {
        let mut x: usize = 0;
        while x < side
            invariant
                grid == matrix@,
                is_square(grid),
                side == grid.len(),
                b == border,
                width == side + 2 * b,
                0 <= y < side,
                0 <= x <= side,
                luma_size(img) == (width as int, width as int),
                luma_pixels(img) == painted(grid, border as int, x as int, y as int),
            decreases side - x,
        {
            if matrix.module(x, y) {
                put_pixel(&mut img, x as u32 + b, y as u32 + b, 0);
            }
            x += 1;
            proof {
                let at = (y + b) * width + (x - 1 + b);
                lemma_fundamental_div_mod_converse(at, width as int, y + b, x - 1 + b);
                assert(0 <= at < width * width) by (nonlinear_arith)
                    requires
                        at == (y + b) * width + (x - 1 + b),
                        0 <= y + b < width,
                        0 <= x - 1 + b < width,
                ;
                let after = painted(grid, border as int, x as int, y as int);
                assert forall|i: int| 0 <= i < width * width implies luma_pixels(img)[i]
                    == after[i] by {
                    lemma_fundamental_div_mod(i, width as int);
                    if i % (width as int) == x - 1 + b && i / (width as int) == y + b {
                        assert(i == at) by (nonlinear_arith)
                            requires
                                i == width * (y + b) + (x - 1 + b),
                                at == (y + b) * width + (x - 1 + b),
                        ;
                    }
                }
                assert(luma_pixels(img) =~= after);
            }
        }
        y += 1;
        assert(luma_pixels(img) =~= painted(grid, border as int, 0, y as int));
    }
    assert(luma_pixels(img) =~= module_raster(grid, border as int));
    let out = resize_nearest(&img, scaled, scaled);
    assert(scale_factor == 1 ==> scaled == width) by (nonlinear_arith)
        requires
            scaled == width * scale_factor,
    ;
    Raster::from_buffer(&out)
}

} // verus!
