//! A symbol as an SVG document.

use crate::symbol::{module_at, SymbolMatrix};
use crate::text::{decimal, push_decimal};
use vstd::prelude::*;
use vstd::string::StringExecFns;

verus! {

/// The side of the drawing: the symbol and a border on either side, each
/// module `scale` units wide.
pub open spec fn svg_dimension(side: int, border: int, scale: int) -> int {
    (side + 2 * border) * scale
}

/// The document up to the opening quote of the path data: the XML
/// declaration, the document type, the `svg` element with its side written
/// four times, and a white rectangle behind everything.
pub open spec fn svg_head(dimension: nat) -> Seq<char> {
    "<?xml version=\"1.0\" encoding=\"UTF-8\"?>\n"@
        + "<!DOCTYPE svg PUBLIC \"-//W3C//DTD SVG 1.1//EN\" \"http://www.w3.org/Graphics/SVG/1.1/DTD/svg11.dtd\">\n"@
        + "<svg xmlns=\"http://www.w3.org/2000/svg\" version=\"1.1\" viewBox=\"0 0 "@
        + decimal(dimension) + " "@ + decimal(dimension) + "\" width=\""@ + decimal(dimension)
        + "\" height=\""@ + decimal(dimension) + "\" stroke=\"none\">\n"@
        + "\t<rect width=\"100%\" height=\"100%\" fill=\"#FFFFFF\"/>\n"@ + "\t<path d=\""@
}

/// The document from the closing quote of the path data on.
pub open spec fn svg_tail() -> Seq<char> {
    "\" fill=\"#000000\"/>\n"@ + "</svg>\n"@
}

/// The subpath for the module at column `x` of row `y`: a move to its top
/// left corner, three sides of the square, and a close. A space comes before
/// it, except at the first module of the first row.
pub open spec fn svg_square(x: int, y: int, border: int, scale: int) -> Seq<char> {
    (if x != 0 || y != 0 {
        " "@
    } else {
        Seq::<char>::empty()
    }) + "M"@ + decimal(((x + border) * scale) as nat) + ","@ + decimal(
        ((y + border) * scale) as nat,
    ) + "h"@ + decimal(scale as nat) + "v"@ + decimal(scale as nat) + "h-"@ + decimal(
        scale as nat,
    ) + "z"@
}

/// What one module adds to the path data: its subpath if it is dark, nothing
/// if it is light.
pub open spec fn svg_cell(grid: Seq<Seq<bool>>, x: int, y: int, border: int, scale: int) -> Seq<
    char,
> {
    if module_at(grid, x, y) {
        svg_square(x, y, border, scale)
    } else {
        Seq::<char>::empty()
    }
}

/// The path data of the first `count` modules of row `y`, from the left.
pub open spec fn svg_row(grid: Seq<Seq<bool>>, y: int, count: int, border: int, scale: int) -> Seq<
    char,
>
    decreases count,
{
    if count <= 0 {
        Seq::<char>::empty()
    } else {
        svg_row(grid, y, count - 1, border, scale) + svg_cell(grid, count - 1, y, border, scale)
    }
}

/// The path data of the first `count` rows, from the top.
pub open spec fn svg_rows(grid: Seq<Seq<bool>>, count: int, border: int, scale: int) -> Seq<char>
    decreases count,
{
    if count <= 0 {
        Seq::<char>::empty()
    } else {
        svg_rows(grid, count - 1, border, scale) + svg_row(
            grid,
            count - 1,
            grid.len() as int,
            border,
            scale,
        )
    }
}

/// The whole document for a symbol: one path whose subpaths are the dark
/// modules, row after row, in black on white. Every line ends in `\n`.
pub open spec fn svg_document(grid: Seq<Seq<bool>>, border: int, scale: int) -> Seq<char> {
    svg_head(svg_dimension(grid.len() as int, border, scale) as nat) + svg_rows(
        grid,
        grid.len() as int,
        border,
        scale,
    ) + svg_tail()
}

/// Appends the subpath of one dark module.
fn push_square(out: &mut String, x: u32, y: u32, border: u32, scale: u32)
    requires
        scale >= 1,
        (x + border) * scale <= u32::MAX,
        (y + border) * scale <= u32::MAX,
    ensures
        final(out)@ == old(out)@ + svg_square(x as int, y as int, border as int, scale as int),
{
    assert(x + border <= (x + border) * scale && y + border <= (y + border) * scale)
        by (nonlinear_arith)
        requires
            scale >= 1,
    ;
    if x != 0 || y != 0 {
        out.append(" ");
    }
    out.append("M");
    push_decimal(out, ((x + border) * scale) as u64);
    out.append(",");
    push_decimal(out, ((y + border) * scale) as u64);
    out.append("h");
    push_decimal(out, scale as u64);
    out.append("v");
    push_decimal(out, scale as u64);
    out.append("h-");
    push_decimal(out, scale as u64);
    out.append("z");
    assert(out@ =~= old(out)@ + svg_square(x as int, y as int, border as int, scale as int));
}

/// The SVG document for a symbol with `border` light modules around it and
/// `scale` units to a module.
pub fn to_svg_string(matrix: &SymbolMatrix, border: i32, scale: i32) -> (svg: String)
    requires
        border >= 0,
        scale > 0,
        svg_dimension(matrix@.len() as int, border as int, scale as int) <= i32::MAX,
    ensures
        svg@ == svg_document(matrix@, border as int, scale as int),
{
    let side = matrix.side();
    let ghost grid = matrix@;
    assert(side + 2 * border <= (side + 2 * border) * scale) by (nonlinear_arith)
        requires
            scale >= 1,
            side + 2 * border >= 0,
    ;
    let b = border as u32;
    let s = scale as u32;
    let width: u32 = side as u32 + 2 * b;
    let dimension: u32 = width * s;
    let mut out = String::new();
    out.append("<?xml version=\"1.0\" encoding=\"UTF-8\"?>\n");
    out.append(
        "<!DOCTYPE svg PUBLIC \"-//W3C//DTD SVG 1.1//EN\" \"http://www.w3.org/Graphics/SVG/1.1/DTD/svg11.dtd\">\n",
    );
    out.append("<svg xmlns=\"http://www.w3.org/2000/svg\" version=\"1.1\" viewBox=\"0 0 ");
    push_decimal(&mut out, dimension as u64);
    out.append(" ");
    push_decimal(&mut out, dimension as u64);
    out.append("\" width=\"");
    push_decimal(&mut out, dimension as u64);
    out.append("\" height=\"");
    push_decimal(&mut out, dimension as u64);
    out.append("\" stroke=\"none\">\n");
    out.append("\t<rect width=\"100%\" height=\"100%\" fill=\"#FFFFFF\"/>\n");
    out.append("\t<path d=\"");
    let ghost head = svg_head(dimension as nat);
    assert(out@ =~= head);
    let mut y: usize = 0;
    while y < side
        invariant
            grid == matrix@,
            side == grid.len(),
            b == border,
            s == scale,
            s >= 1,
            side + 2 * b <= i32::MAX,
            (side + 2 * b) * s <= i32::MAX,
            0 <= y <= side,
            out@ == head + svg_rows(grid, y as int, border as int, scale as int),
        decreases side - y,
    {
        let ghost done = out@;
        let mut x: usize = 0;
        while x < side
            invariant
                grid == matrix@,
                side == grid.len(),
                b == border,
                s == scale,
                s >= 1,
                side + 2 * b <= i32::MAX,
                (side + 2 * b) * s <= i32::MAX,
                0 <= y < side,
                0 <= x <= side,
                out@ == done + svg_row(grid, y as int, x as int, border as int, scale as int),
            decreases side - x,
        {
            let ghost before = out@;
            if matrix.module(x, y) {
                assert((x + b) * s <= (side + 2 * b) * s && (y + b) * s <= (side + 2 * b) * s)
                    by (nonlinear_arith)
                    requires
                        0 <= x < side,
                        0 <= y < side,
                        b >= 0,
                        s >= 1,
                ;
                push_square(&mut out, x as u32, y as u32, b, s);
            }
            assert(out@ =~= before + svg_cell(grid, x as int, y as int, border as int, scale as int));
            x += 1;
            assert(out@ =~= done + svg_row(grid, y as int, x as int, border as int, scale as int));
        }
        y += 1;
        assert(out@ =~= head + svg_rows(grid, y as int, border as int, scale as int));
    }
    out.append("\" fill=\"#000000\"/>\n");
    out.append("</svg>\n");
    assert(out@ =~= svg_document(grid, border as int, scale as int));
    out
}

} // verus!
