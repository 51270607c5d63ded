//! A symbol as text for a console.

use crate::symbol::{is_square, module_at, SymbolMatrix};
use vstd::prelude::*;
use vstd::string::StringExecFns;

verus! {

/// The light modules that the text leaves on each side of the symbol.
pub const QUIET_ZONE: usize = 4;

/// The character that stands for a module: a full block for a dark one, a
/// space for a light one.
pub open spec fn glyph(dark: bool) -> char {
    if dark {
        '\u{2588}'
    } else {
        ' '
    }
}

/// The first `count` modules of the line for row `y`, each written twice so
/// that it comes out about square. The line starts `QUIET_ZONE` modules to the
/// left of the symbol.
pub open spec fn art_cells(grid: Seq<Seq<bool>>, y: int, count: int) -> Seq<char> {
    Seq::new((2 * count) as nat, |i: int| glyph(module_at(grid, i / 2 - QUIET_ZONE, y)))
}

/// The line for row `y`, with its line feed.
pub open spec fn art_line(grid: Seq<Seq<bool>>, y: int) -> Seq<char> {
    art_cells(grid, y, grid.len() + 2 * QUIET_ZONE).push('\n')
}

/// The first `count` lines. The first line is `QUIET_ZONE` rows above the symbol.
pub open spec fn art_lines(grid: Seq<Seq<bool>>, count: int) -> Seq<char>
    decreases count,
{
    if count <= 0 {
        Seq::<char>::empty()
    } else {
        art_lines(grid, count - 1) + art_line(grid, count - 1 - QUIET_ZONE)
    }
}

/// The text for a symbol: a line for each row of the symbol and of the quiet
/// zone above and below it, then an empty line.
pub open spec fn text_art_of(grid: Seq<Seq<bool>>) -> Seq<char> {
    art_lines(grid, grid.len() + 2 * QUIET_ZONE).push('\n')
}

/// The text that shows a symbol on a console, with a quiet zone of
/// `QUIET_ZONE` modules around it and an empty line after it.
pub fn text_art(matrix: &SymbolMatrix) -> (text: String)
    ensures
        text@ == text_art_of(matrix@),
{
    let side = matrix.side();
    let ghost grid = matrix@;
    let quiet: u128 = QUIET_ZONE as u128;
    let total: u128 = side as u128 + 2 * quiet;
    let mut out = String::new();
    let mut row: u128 = 0;
    assert(out@ =~= art_lines(grid, 0));
    while row < total
        invariant
            grid == matrix@,
            is_square(grid),
            side == grid.len(),
            quiet == QUIET_ZONE,
            total == side + 2 * QUIET_ZONE,
            0 <= row <= total,
            out@ == art_lines(grid, row as int),
        decreases total - row,
    {
        let ghost done = out@;
        let ghost y = row - QUIET_ZONE;
        let mut column: u128 = 0;
        assert(out@ =~= done + art_cells(grid, y, 0));
        while column < total
            invariant
                grid == matrix@,
                is_square(grid),
                side == grid.len(),
                quiet == QUIET_ZONE,
                total == side + 2 * QUIET_ZONE,
                0 <= row < total,
                y == row - QUIET_ZONE,
                0 <= column <= total,
                out@ == done + art_cells(grid, y, column as int),
            decreases total - column,
        {
            let dark = row >= quiet && column >= quiet && row - quiet < side as u128 && column
                - quiet < side as u128 && matrix.module(
                (column - quiet) as usize,
                (row - quiet) as usize,
            );
            assert(dark == module_at(grid, column - QUIET_ZONE, y));
            if dark {
                proof {
                    reveal_strlit("\u{2588}\u{2588}");
                }
                out.append("\u{2588}\u{2588}");
            } else {
                proof {
                    reveal_strlit("  ");
                }
                out.append("  ");
            }
            column += 1;
            assert(out@ =~= done + art_cells(grid, y, column as int));
        }
        proof {
            reveal_strlit("\n");
        }
        out.append("\n");
        row += 1;
        assert(out@ =~= art_lines(grid, row as int));
    }
    proof {
        reveal_strlit("\n");
    }
    out.append("\n");
    assert(out@ =~= text_art_of(grid));
    out
}

} // verus!
