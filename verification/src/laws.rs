//! What holds of the renderings of every symbol, and of the lines of every
//! image.

use crate::art::{art_cells, art_line, art_lines, glyph, text_art_of, QUIET_ZONE};
use crate::paint::{module_grey, module_raster};
use crate::scan::{lines_of, payloads_found, text_found, DecodeError};
use crate::svg::{
    svg_cell, svg_dimension, svg_document, svg_head, svg_row, svg_rows, svg_square, svg_tail,
};
use crate::symbol::{is_square, module_at};
use crate::text::decimal;
use vstd::arithmetic::div_mod::lemma_fundamental_div_mod_converse;
use vstd::prelude::*;

verus! {

/// The characters of one line of the console text, the line feed counted.
pub open spec fn art_line_len(side: int) -> int {
    2 * (side + 2 * QUIET_ZONE) + 1
}

/// Where the first of the two characters of a module stands in the console
/// text; `x` and `y` are counted from the top left module of the symbol, so
/// that the quiet zone has the negative ones.
pub open spec fn art_offset(side: int, x: int, y: int) -> int {
    (y + QUIET_ZONE) * art_line_len(side) + 2 * (x + QUIET_ZONE)
}

/// Where the pixel of a module stands in the raster that has one pixel to a
/// module; `x` and `y` are counted from the top left module of the symbol.
pub open spec fn raster_offset(side: int, border: int, x: int, y: int) -> int {
    (y + border) * (side + 2 * border) + (x + border)
}

proof fn lemma_art_lines_len(grid: Seq<Seq<bool>>, count: int)
    requires
        count >= 0,
    ensures
        art_lines(grid, count).len() == count * art_line_len(grid.len() as int),
    decreases count,
{
    let len = art_line_len(grid.len() as int);
    if count > 0 {
        lemma_art_lines_len(grid, count - 1);
        assert((count - 1) * len + len == count * len) by (nonlinear_arith);
    } else {
        assert(0 * len == 0);
    }
}

proof fn lemma_art_lines_index(grid: Seq<Seq<bool>>, count: int, line: int, at: int)
    requires
        0 <= line < count,
        0 <= at < art_line_len(grid.len() as int),
    ensures
        line * art_line_len(grid.len() as int) + at < art_lines(grid, count).len(),
        art_lines(grid, count)[line * art_line_len(grid.len() as int) + at] == art_line(
            grid,
            line - QUIET_ZONE,
        )[at],
    decreases count,
{
    let len = art_line_len(grid.len() as int);
    lemma_art_lines_len(grid, count);
    lemma_art_lines_len(grid, count - 1);
    assert((count - 1) * len + len == count * len) by (nonlinear_arith);
    if line == count - 1 {
    } else {
        lemma_art_lines_index(grid, count - 1, line, at);
        assert(line * len + len <= (count - 1) * len) by (nonlinear_arith)
            requires
                line + 1 <= count - 1,
                len >= 0,
        ;
    }
}

/// The console text shows every module, of the symbol and of the quiet zone
/// around it, at its place: two characters, full blocks for a dark module and
/// spaces for a light one. After the last line comes one more line feed.
pub proof fn lemma_text_art_shows_module(grid: Seq<Seq<bool>>, x: int, y: int)
    requires
        -QUIET_ZONE <= x < grid.len() + QUIET_ZONE,
        -QUIET_ZONE <= y < grid.len() + QUIET_ZONE,
    ensures
        text_art_of(grid).len() == (grid.len() + 2 * QUIET_ZONE) * art_line_len(grid.len() as int)
            + 1,
        0 <= art_offset(grid.len() as int, x, y),
        art_offset(grid.len() as int, x, y) + 1 < text_art_of(grid).len() - 1,
        text_art_of(grid)[art_offset(grid.len() as int, x, y)] == glyph(module_at(grid, x, y)),
        text_art_of(grid)[art_offset(grid.len() as int, x, y) + 1] == glyph(module_at(grid, x, y)),
        text_art_of(grid).last() == '\n',
{
    let side = grid.len() as int;
    let lines = side + 2 * QUIET_ZONE;
    let len = art_line_len(side);
    lemma_art_lines_len(grid, lines);
    lemma_art_lines_index(grid, lines, y + QUIET_ZONE, 2 * (x + QUIET_ZONE));
    lemma_art_lines_index(grid, lines, y + QUIET_ZONE, 2 * (x + QUIET_ZONE) + 1);
    assert((y + QUIET_ZONE) * len >= 0) by (nonlinear_arith)
        requires
            y + QUIET_ZONE >= 0,
            len >= 0,
    ;
    assert(art_cells(grid, y, lines)[2 * (x + QUIET_ZONE)] == glyph(module_at(grid, x, y)));
    assert(art_cells(grid, y, lines)[2 * (x + QUIET_ZONE) + 1] == glyph(module_at(grid, x, y)));
}

/// The raster with one pixel to a module shows every module, of the symbol
/// and of the border around it, at its place: black for a dark module and
/// white for a light one.
pub proof fn lemma_raster_shows_module(grid: Seq<Seq<bool>>, border: int, x: int, y: int)
    requires
        border >= 0,
        -border <= x < grid.len() + border,
        -border <= y < grid.len() + border,
    ensures
        module_raster(grid, border).len() == (grid.len() + 2 * border) * (grid.len() + 2 * border),
        0 <= raster_offset(grid.len() as int, border, x, y) < module_raster(grid, border).len(),
        module_raster(grid, border)[raster_offset(grid.len() as int, border, x, y)] == module_grey(
            module_at(grid, x, y),
        ),
{
    let width = grid.len() + 2 * border;
    let at = raster_offset(grid.len() as int, border, x, y);
    lemma_fundamental_div_mod_converse(at, width, y + border, x + border);
    assert(0 <= at < width * width) by (nonlinear_arith)
        requires
            at == (y + border) * width + (x + border),
            0 <= y + border < width,
            0 <= x + border < width,
    ;
}

/// The path of the SVG document has a subpath for a module exactly if the
/// module is dark.
pub proof fn lemma_svg_draws_dark_modules(
    grid: Seq<Seq<bool>>,
    border: int,
    scale: int,
    x: int,
    y: int,
)
    ensures
        svg_cell(grid, x, y, border, scale).len() > 0 <==> module_at(grid, x, y),
        module_at(grid, x, y) ==> svg_cell(grid, x, y, border, scale) == svg_square(
            x,
            y,
            border,
            scale,
        ),
{
    reveal_strlit("M");
}

/// The three renderings show the same pattern: at the place of a module of
/// the symbol the console text has a full block, the raster a black pixel and
/// the SVG path a subpath, each exactly if the module is dark.
pub proof fn lemma_renderings_agree(grid: Seq<Seq<bool>>, border: int, scale: int, x: int, y: int)
    requires
        is_square(grid),
        border >= 0,
        0 <= x < grid.len(),
        0 <= y < grid.len(),
    ensures
        (text_art_of(grid)[art_offset(grid.len() as int, x, y)] == '\u{2588}') == grid[y][x],
        (text_art_of(grid)[art_offset(grid.len() as int, x, y) + 1] == '\u{2588}') == grid[y][x],
        (module_raster(grid, border)[raster_offset(grid.len() as int, border, x, y)] == 0)
            == grid[y][x],
        (svg_cell(grid, x, y, border, scale).len() > 0) == grid[y][x],
{
    lemma_text_art_shows_module(grid, x, y);
    lemma_raster_shows_module(grid, border, x, y);
    lemma_svg_draws_dark_modules(grid, border, scale, x, y);
}

/// Without a border and at scale 1 a drawing is as wide as the symbol has
/// modules, and each pixel of the raster is a module.
pub proof fn lemma_minimal_image(grid: Seq<Seq<bool>>, x: int, y: int)
    requires
        0 <= x < grid.len(),
        0 <= y < grid.len(),
    ensures
        svg_dimension(grid.len() as int, 0, 1) == grid.len(),
        module_raster(grid, 0).len() == grid.len() * grid.len(),
        module_raster(grid, 0)[y * grid.len() + x] == module_grey(module_at(grid, x, y)),
{
    lemma_raster_shows_module(grid, 0, x, y);
}

/// A text without a given character.
pub open spec fn has_no(s: Seq<char>, c: char) -> bool {
    forall|i: int| 0 <= i < s.len() ==> #[trigger] s[i] != c
}

proof fn lemma_decimal_is_digits(n: nat)
    ensures
        decimal(n).len() > 0,
        forall|i: int| 0 <= i < decimal(n).len() ==> '0' <= #[trigger] decimal(n)[i] <= '9',
    decreases n,
{
    if n >= 10 {
        lemma_decimal_is_digits(n / 10);
    }
}

proof fn lemma_svg_square_has_no_return(x: int, y: int, border: int, scale: int)
    ensures
        has_no(svg_square(x, y, border, scale), '\r'),
{
    reveal_strlit(" ");
    reveal_strlit("M");
    reveal_strlit(",");
    reveal_strlit("h");
    reveal_strlit("v");
    reveal_strlit("h-");
    reveal_strlit("z");
    lemma_decimal_is_digits(((x + border) * scale) as nat);
    lemma_decimal_is_digits(((y + border) * scale) as nat);
    lemma_decimal_is_digits(scale as nat);
}

proof fn lemma_svg_row_has_no_return(
    grid: Seq<Seq<bool>>,
    y: int,
    count: int,
    border: int,
    scale: int,
)
    ensures
        has_no(svg_row(grid, y, count, border, scale), '\r'),
    decreases count,
{
    if count > 0 {
        lemma_svg_row_has_no_return(grid, y, count - 1, border, scale);
        lemma_svg_square_has_no_return(count - 1, y, border, scale);
    }
}

proof fn lemma_svg_rows_have_no_return(grid: Seq<Seq<bool>>, count: int, border: int, scale: int)
    ensures
        has_no(svg_rows(grid, count, border, scale), '\r'),
    decreases count,
{
    if count > 0 {
        lemma_svg_rows_have_no_return(grid, count - 1, border, scale);
        lemma_svg_row_has_no_return(grid, count - 1, grid.len() as int, border, scale);
    }
}

proof fn lemma_svg_head_has_no_return(dimension: nat)
    ensures
        has_no(svg_head(dimension), '\r'),
{
    reveal_strlit("<?xml version=\"1.0\" encoding=\"UTF-8\"?>\n");
    reveal_strlit(
        "<!DOCTYPE svg PUBLIC \"-//W3C//DTD SVG 1.1//EN\" \"http://www.w3.org/Graphics/SVG/1.1/DTD/svg11.dtd\">\n",
    );
    reveal_strlit("<svg xmlns=\"http://www.w3.org/2000/svg\" version=\"1.1\" viewBox=\"0 0 ");
    reveal_strlit(" ");
    reveal_strlit("\" width=\"");
    reveal_strlit("\" height=\"");
    reveal_strlit("\" stroke=\"none\">\n");
    reveal_strlit("\t<rect width=\"100%\" height=\"100%\" fill=\"#FFFFFF\"/>\n");
    reveal_strlit("\t<path d=\"");
    lemma_decimal_is_digits(dimension);
}

/// The SVG document of a symbol has no carriage return anywhere, and ends in
/// a line feed: its lines end the same way on every machine.
pub proof fn lemma_svg_line_endings(grid: Seq<Seq<bool>>, border: int, scale: int)
    ensures
        has_no(svg_document(grid, border, scale), '\r'),
        svg_document(grid, border, scale).len() > 0,
        svg_document(grid, border, scale).last() == '\n',
{
    lemma_svg_head_has_no_return(svg_dimension(grid.len() as int, border, scale) as nat);
    lemma_svg_rows_have_no_return(grid, grid.len() as int, border, scale);
    reveal_strlit("\" fill=\"#000000\"/>\n");
    reveal_strlit("</svg>\n");
    assert(has_no(svg_tail(), '\r'));
    assert(svg_tail().last() == '\n');
}

proof fn lemma_svg_row_of_equal_modules(
    first: Seq<Seq<bool>>,
    second: Seq<Seq<bool>>,
    y: int,
    count: int,
    border: int,
    scale: int,
)
    requires
        forall|x: int, y: int| module_at(first, x, y) == module_at(second, x, y),
    ensures
        svg_row(first, y, count, border, scale) == svg_row(second, y, count, border, scale),
    decreases count,
{
    if count > 0 {
        lemma_svg_row_of_equal_modules(first, second, y, count - 1, border, scale);
        assert(module_at(first, count - 1, y) == module_at(second, count - 1, y));
    }
}

proof fn lemma_svg_rows_of_equal_modules(
    first: Seq<Seq<bool>>,
    second: Seq<Seq<bool>>,
    count: int,
    border: int,
    scale: int,
)
    requires
        first.len() == second.len(),
        forall|x: int, y: int| module_at(first, x, y) == module_at(second, x, y),
    ensures
        svg_rows(first, count, border, scale) == svg_rows(second, count, border, scale),
    decreases count,
{
    if count > 0 {
        lemma_svg_rows_of_equal_modules(first, second, count - 1, border, scale);
        lemma_svg_row_of_equal_modules(first, second, count - 1, first.len() as int, border, scale);
    }
}

/// The SVG document is made of the side, the modules, the border and the
/// scale, and of nothing else: two grids of one side whose modules agree have
/// the same document, character for character.
pub proof fn lemma_svg_depends_on_modules_alone(
    first: Seq<Seq<bool>>,
    second: Seq<Seq<bool>>,
    border: int,
    scale: int,
)
    requires
        first.len() == second.len(),
        forall|x: int, y: int| module_at(first, x, y) == module_at(second, x, y),
    ensures
        svg_document(first, border, scale) == svg_document(second, border, scale),
{
    lemma_svg_rows_of_equal_modules(first, second, first.len() as int, border, scale);
}

proof fn lemma_svg_row_keeps_its_start(grid: Seq<Seq<bool>>, y: int, count: int, border: int, scale: int)
    requires
        count >= 1,
    ensures
        svg_row(grid, y, 1, border, scale).is_prefix_of(svg_row(grid, y, count, border, scale)),
    decreases count,
{
    if count > 1 {
        lemma_svg_row_keeps_its_start(grid, y, count - 1, border, scale);
    }
}

proof fn lemma_svg_rows_keep_their_start(grid: Seq<Seq<bool>>, count: int, border: int, scale: int)
    requires
        count >= 1,
    ensures
        svg_rows(grid, 1, border, scale).is_prefix_of(svg_rows(grid, count, border, scale)),
    decreases count,
{
    if count > 1 {
        lemma_svg_rows_keep_their_start(grid, count - 1, border, scale);
    }
}

/// Without a border and at scale 1 the square of a dark module is a unit
/// square at the module's own place; and where the first module of the first
/// row is dark, as it is in every symbol with a finder pattern, the path data
/// start with its square.
pub proof fn lemma_minimal_svg_path(grid: Seq<Seq<bool>>, x: int, y: int)
    requires
        0 <= x,
        0 <= y,
    ensures
        svg_square(x, y, 0, 1) == (if x != 0 || y != 0 {
            " "@
        } else {
            Seq::<char>::empty()
        }) + "M"@ + decimal(x as nat) + ","@ + decimal(y as nat) + "h1v1h-1z"@,
        module_at(grid, 0, 0) ==> "M0,0h1v1h-1z"@.is_prefix_of(
            svg_rows(grid, grid.len() as int, 0, 1),
        ),
{
    reveal_strlit("M");
    reveal_strlit(",");
    reveal_strlit("h");
    reveal_strlit("v");
    reveal_strlit("h-");
    reveal_strlit("z");
    reveal_strlit("h1v1h-1z");
    reveal_strlit("M0,0h1v1h-1z");
    assert(decimal(1) =~= seq!['1']);
    assert(decimal(0) =~= seq!['0']);
    assert((x + 0) * 1 == x && (y + 0) * 1 == y);
    assert("h"@ + decimal(1) + "v"@ + decimal(1) + "h-"@ + decimal(1) + "z"@ =~= "h1v1h-1z"@);
    assert(svg_square(x, y, 0, 1) =~= (if x != 0 || y != 0 {
        " "@
    } else {
        Seq::<char>::empty()
    }) + "M"@ + decimal(x as nat) + ","@ + decimal(y as nat) + "h1v1h-1z"@);
    if module_at(grid, 0, 0) {
        let side = grid.len() as int;
        lemma_svg_row_keeps_its_start(grid, 0, side, 0, 1);
        lemma_svg_rows_keep_their_start(grid, side, 0, 1);
        reveal_with_fuel(svg_row, 2);
        reveal_with_fuel(svg_rows, 2);
        assert(svg_row(grid, 0, 1, 0, 1) =~= svg_square(0, 0, 0, 1));
        assert(svg_rows(grid, 1, 0, 1) =~= svg_row(grid, 0, side, 0, 1));
        assert(svg_square(0, 0, 0, 1) =~= "M0,0h1v1h-1z"@);
    }
}

/// How often a character stands in a text.
pub open spec fn occurrences(s: Seq<char>, c: char) -> nat
    decreases s.len(),
{
    if s.len() == 0 {
        0
    } else {
        occurrences(s.drop_last(), c) + if s.last() == c {
            1nat
        } else {
            0nat
        }
    }
}

/// The dark modules among the first `count` of row `y`.
pub open spec fn dark_in_row(grid: Seq<Seq<bool>>, y: int, count: int) -> nat
    decreases count,
{
    if count <= 0 {
        0
    } else {
        dark_in_row(grid, y, count - 1) + if module_at(grid, count - 1, y) {
            1nat
        } else {
            0nat
        }
    }
}

/// The dark modules in the first `count` rows.
pub open spec fn dark_in_rows(grid: Seq<Seq<bool>>, count: int) -> nat
    decreases count,
{
    if count <= 0 {
        0
    } else {
        dark_in_rows(grid, count - 1) + dark_in_row(grid, count - 1, grid.len() as int)
    }
}

proof fn lemma_occurrences_concat(first: Seq<char>, second: Seq<char>, c: char)
    ensures
        occurrences(first + second, c) == occurrences(first, c) + occurrences(second, c),
    decreases second.len(),
{
    if second.len() == 0 {
        assert(first + second =~= first);
    } else {
        assert((first + second).drop_last() =~= first + second.drop_last());
        assert((first + second).last() == second.last());
        lemma_occurrences_concat(first, second.drop_last(), c);
    }
}

proof fn lemma_occurrences_none(s: Seq<char>, c: char)
    requires
        has_no(s, c),
    ensures
        occurrences(s, c) == 0,
    decreases s.len(),
{
    if s.len() > 0 {
        lemma_occurrences_none(s.drop_last(), c);
    }
}

proof fn lemma_svg_square_marks(x: int, y: int, border: int, scale: int)
    ensures
        occurrences(svg_square(x, y, border, scale), 'M') == 1,
        occurrences(svg_square(x, y, border, scale), 'z') == 1,
{
    reveal_strlit(" ");
    reveal_strlit("M");
    reveal_strlit(",");
    reveal_strlit("h");
    reveal_strlit("v");
    reveal_strlit("h-");
    reveal_strlit("z");
    lemma_decimal_is_digits(((x + border) * scale) as nat);
    lemma_decimal_is_digits(((y + border) * scale) as nat);
    lemma_decimal_is_digits(scale as nat);
    let lead = if x != 0 || y != 0 {
        " "@
    } else {
        Seq::<char>::empty()
    };
    let middle = decimal(((x + border) * scale) as nat) + ","@ + decimal(
        ((y + border) * scale) as nat,
    ) + "h"@ + decimal(scale as nat) + "v"@ + decimal(scale as nat) + "h-"@ + decimal(
        scale as nat,
    );
    let square = svg_square(x, y, border, scale);
    assert(square =~= lead + "M"@ + middle + "z"@);
    assert(has_no(lead, 'M') && has_no(lead, 'z'));
    assert(has_no(middle, 'M') && has_no(middle, 'z'));
    reveal_with_fuel(occurrences, 2);
    assert("M"@.drop_last() =~= Seq::<char>::empty());
    assert("z"@.drop_last() =~= Seq::<char>::empty());
    assert(occurrences("M"@, 'M') == 1 && occurrences("M"@, 'z') == 0);
    assert(occurrences("z"@, 'z') == 1 && occurrences("z"@, 'M') == 0);
    lemma_occurrences_none(lead, 'M');
    lemma_occurrences_none(lead, 'z');
    lemma_occurrences_none(middle, 'M');
    lemma_occurrences_none(middle, 'z');
    lemma_occurrences_concat(lead, "M"@, 'M');
    lemma_occurrences_concat(lead, "M"@, 'z');
    lemma_occurrences_concat(lead + "M"@, middle, 'M');
    lemma_occurrences_concat(lead + "M"@, middle, 'z');
    lemma_occurrences_concat(lead + "M"@ + middle, "z"@, 'M');
    lemma_occurrences_concat(lead + "M"@ + middle, "z"@, 'z');
}

proof fn lemma_svg_row_marks(grid: Seq<Seq<bool>>, y: int, count: int, border: int, scale: int)
    ensures
        occurrences(svg_row(grid, y, count, border, scale), 'M') == dark_in_row(grid, y, count),
        occurrences(svg_row(grid, y, count, border, scale), 'z') == dark_in_row(grid, y, count),
    decreases count,
{
    if count > 0 {
        lemma_svg_row_marks(grid, y, count - 1, border, scale);
        lemma_svg_square_marks(count - 1, y, border, scale);
        let before = svg_row(grid, y, count - 1, border, scale);
        let cell = svg_cell(grid, count - 1, y, border, scale);
        lemma_occurrences_concat(before, cell, 'M');
        lemma_occurrences_concat(before, cell, 'z');
    }
}

proof fn lemma_svg_rows_marks(grid: Seq<Seq<bool>>, count: int, border: int, scale: int)
    ensures
        occurrences(svg_rows(grid, count, border, scale), 'M') == dark_in_rows(grid, count),
        occurrences(svg_rows(grid, count, border, scale), 'z') == dark_in_rows(grid, count),
    decreases count,
{
    if count > 0 {
        lemma_svg_rows_marks(grid, count - 1, border, scale);
        lemma_svg_row_marks(grid, count - 1, grid.len() as int, border, scale);
        let before = svg_rows(grid, count - 1, border, scale);
        let row = svg_row(grid, count - 1, grid.len() as int, border, scale);
        lemma_occurrences_concat(before, row, 'M');
        lemma_occurrences_concat(before, row, 'z');
    }
}

/// The SVG document has as many subpaths as the symbol has dark modules: it
/// moves the pen and closes a path once for each of them.
pub proof fn lemma_svg_has_a_subpath_for_each_dark_module(
    grid: Seq<Seq<bool>>,
    border: int,
    scale: int,
)
    ensures
        occurrences(svg_document(grid, border, scale), 'M') == dark_in_rows(
            grid,
            grid.len() as int,
        ),
        occurrences(svg_document(grid, border, scale), 'z') == dark_in_rows(
            grid,
            grid.len() as int,
        ),
{
    let dimension = svg_dimension(grid.len() as int, border, scale) as nat;
    let head = svg_head(dimension);
    let rows = svg_rows(grid, grid.len() as int, border, scale);
    reveal_strlit("<?xml version=\"1.0\" encoding=\"UTF-8\"?>\n");
    reveal_strlit(
        "<!DOCTYPE svg PUBLIC \"-//W3C//DTD SVG 1.1//EN\" \"http://www.w3.org/Graphics/SVG/1.1/DTD/svg11.dtd\">\n",
    );
    reveal_strlit("<svg xmlns=\"http://www.w3.org/2000/svg\" version=\"1.1\" viewBox=\"0 0 ");
    reveal_strlit(" ");
    reveal_strlit("\" width=\"");
    reveal_strlit("\" height=\"");
    reveal_strlit("\" stroke=\"none\">\n");
    reveal_strlit("\t<rect width=\"100%\" height=\"100%\" fill=\"#FFFFFF\"/>\n");
    reveal_strlit("\t<path d=\"");
    reveal_strlit("\" fill=\"#000000\"/>\n");
    reveal_strlit("</svg>\n");
    lemma_decimal_is_digits(dimension);
    assert(has_no(head, 'M') && has_no(head, 'z'));
    assert(has_no(svg_tail(), 'M') && has_no(svg_tail(), 'z'));
    lemma_occurrences_none(head, 'M');
    lemma_occurrences_none(head, 'z');
    lemma_occurrences_none(svg_tail(), 'M');
    lemma_occurrences_none(svg_tail(), 'z');
    lemma_svg_rows_marks(grid, grid.len() as int, border, scale);
    lemma_occurrences_concat(head, rows, 'M');
    lemma_occurrences_concat(head, rows, 'z');
    lemma_occurrences_concat(head + rows, svg_tail(), 'M');
    lemma_occurrences_concat(head + rows, svg_tail(), 'z');
}

/// The lines of two runs of results, one after the other, are the lines of
/// the first and then the lines of the second: what a symbol gives does not
/// depend on the symbols around it.
pub proof fn lemma_lines_of_concat(
    first: Seq<Result<Seq<u8>, DecodeError>>,
    second: Seq<Result<Seq<u8>, DecodeError>>,
)
    ensures
        lines_of(first + second) == lines_of(first) + lines_of(second),
    decreases second.len(),
{
    if second.len() == 0 {
        assert(first + second =~= first);
        assert(lines_of(first) + lines_of(second) =~= lines_of(first));
    } else {
        assert((first + second).drop_last() =~= first + second.drop_last());
        assert((first + second).last() == second.last());
        lemma_lines_of_concat(first, second.drop_last());
        assert(lines_of(first + second) =~= lines_of(first) + lines_of(second));
    }
}

/// One result gives one line if it is a payload of UTF-8 text, and no line
/// if it is an error or its payload is no text.
pub proof fn lemma_line_of_one(one: Result<Seq<u8>, DecodeError>)
    ensures
        lines_of(seq![one]) == match text_found(one) {
            Ok(text) => seq![text],
            Err(_) => Seq::<Seq<char>>::empty(),
        },
{
    reveal_with_fuel(lines_of, 2);
    assert(seq![one].drop_last() =~= Seq::<Result<Seq<u8>, DecodeError>>::empty());
    assert(seq![one].last() == one);
    assert(lines_of(seq![one]) =~= match text_found(one) {
        Ok(text) => seq![text],
        Err(_) => Seq::<Seq<char>>::empty(),
    });
}

/// A symbol that cannot be read, or holds no text, is left out, and the
/// symbols before and after it give the lines that they give without it.
pub proof fn lemma_unread_symbol_is_skipped(
    before: Seq<Result<Seq<u8>, DecodeError>>,
    one: Result<Seq<u8>, DecodeError>,
    after: Seq<Result<Seq<u8>, DecodeError>>,
)
    ensures
        lines_of(before.push(one) + after) == lines_of(before) + lines_of(seq![one]) + lines_of(
            after,
        ),
        text_found(one) is Err ==> lines_of(before.push(one) + after) == lines_of(before + after),
{
    assert(before.push(one) =~= before + seq![one]);
    lemma_lines_of_concat(before, seq![one]);
    lemma_lines_of_concat(before + seq![one], after);
    lemma_lines_of_concat(before, after);
    lemma_line_of_one(one);
    if text_found(one) is Err {
        assert(lines_of(before) + lines_of(seq![one]) =~= lines_of(before));
    }
}

/// Where every symbol is read and holds text, there is one line for each, in
/// their order.
pub proof fn lemma_one_line_per_symbol(payloads: Seq<Result<Seq<u8>, DecodeError>>)
    requires
        forall|i: int| 0 <= i < payloads.len() ==> text_found(#[trigger] payloads[i]) is Ok,
    ensures
        lines_of(payloads).len() == payloads.len(),
        forall|i: int|
            0 <= i < payloads.len() ==> Ok::<Seq<char>, DecodeError>(
                #[trigger] lines_of(payloads)[i],
            ) == text_found(payloads[i]),
    decreases payloads.len(),
{
    if payloads.len() > 0 {
        lemma_one_line_per_symbol(payloads.drop_last());
    }
}

/// An image in which no symbol was found gives no result and no line.
pub proof fn lemma_no_symbols_no_lines(found: Seq<Result<(int, Seq<u8>), DecodeError>>)
    requires
        found.len() == 0,
    ensures
        payloads_found(found).len() == 0,
        lines_of(payloads_found(found)).len() == 0,
{
}

/// What a located symbol gives does not depend on the symbols around it: the
/// results of two runs of symbols, one after the other, are the results of
/// the first and then those of the second, and so are their lines.
pub proof fn lemma_symbols_are_read_one_by_one(
    first: Seq<Result<(int, Seq<u8>), DecodeError>>,
    second: Seq<Result<(int, Seq<u8>), DecodeError>>,
)
    ensures
        payloads_found(first + second) == payloads_found(first) + payloads_found(second),
        lines_of(payloads_found(first + second)) == lines_of(payloads_found(first)) + lines_of(
            payloads_found(second),
        ),
{
    assert(payloads_found(first + second) =~= payloads_found(first) + payloads_found(second));
    lemma_lines_of_concat(payloads_found(first), payloads_found(second));
}

} // verus!
