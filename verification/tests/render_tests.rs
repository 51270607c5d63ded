use qrkit::art::{text_art, QUIET_ZONE};
use qrkit::encoder::{encode, EccLevel};
use qrkit::paint::{fits_raster, to_scaled_raster};
use qrkit::svg::to_svg_string;
use qrkit::symbol::SymbolMatrix;

fn corner() -> SymbolMatrix {
    SymbolMatrix::from_rows(vec![vec![true, false], vec![true, true]]).unwrap()
}

fn off_corner() -> SymbolMatrix {
    SymbolMatrix::from_rows(vec![vec![false, true], vec![false, false]]).unwrap()
}

#[test]
fn text_art_of_a_small_grid() {
    let blank = format!("{}\n", " ".repeat(20));
    let mut expected = String::new();
    for _ in 0..4 {
        expected += &blank;
    }
    expected += &format!("{}\u{2588}\u{2588}  {}\n", " ".repeat(8), " ".repeat(8));
    expected += &format!("{}\u{2588}\u{2588}\u{2588}\u{2588}{}\n", " ".repeat(8), " ".repeat(8));
    for _ in 0..4 {
        expected += &blank;
    }
    expected += "\n";
    assert_eq!(text_art(&corner()), expected);
}

#[test]
fn text_art_of_the_empty_grid_is_the_quiet_zone() {
    let m = SymbolMatrix::from_rows(Vec::new()).unwrap();
    let expected = format!("{}\n", " ".repeat(16)).repeat(8) + "\n";
    assert_eq!(text_art(&m), expected);
}

#[test]
fn text_art_example_has_border_glyphs_and_blank_line() {
    let m = encode("https://example.com", EccLevel::Medium).unwrap();
    let n = m.side();
    let text = text_art(&m);
    assert!(text.ends_with("\n\n"));
    let lines: Vec<&str> = text.split('\n').collect();
    assert_eq!(lines.len(), n + 2 * QUIET_ZONE + 2);
    assert_eq!(lines[n + 2 * QUIET_ZONE], "");
    assert_eq!(lines[n + 2 * QUIET_ZONE + 1], "");
    for (row, line) in lines.iter().take(n + 2 * QUIET_ZONE).enumerate() {
        let chars: Vec<char> = line.chars().collect();
        assert_eq!(chars.len(), 2 * (n + 2 * QUIET_ZONE));
        for (i, c) in chars.iter().enumerate() {
            let column = i / 2;
            let inside = row >= 4 && column >= 4 && row < n + 4 && column < n + 4;
            let dark = inside && m.module(column - 4, row - 4);
            assert_eq!(*c, if dark { '\u{2588}' } else { ' ' });
        }
    }
}

#[test]
fn svg_of_a_small_grid() {
    let expected = concat_lines(&[
        "<?xml version=\"1.0\" encoding=\"UTF-8\"?>",
        "<!DOCTYPE svg PUBLIC \"-//W3C//DTD SVG 1.1//EN\" \"http://www.w3.org/Graphics/SVG/1.1/DTD/svg11.dtd\">",
        "<svg xmlns=\"http://www.w3.org/2000/svg\" version=\"1.1\" viewBox=\"0 0 12 12\" width=\"12\" height=\"12\" stroke=\"none\">",
        "\t<rect width=\"100%\" height=\"100%\" fill=\"#FFFFFF\"/>",
        "\t<path d=\"M3,3h3v3h-3z M3,6h3v3h-3z M6,6h3v3h-3z\" fill=\"#000000\"/>",
        "</svg>",
    ]);
    assert_eq!(to_svg_string(&corner(), 1, 3), expected);
}

fn concat_lines(lines: &[&str]) -> String {
    let mut s = String::new();
    for l in lines {
        s += l;
        s += "\n";
    }
    s
}

#[test]
fn svg_path_starts_with_a_space_when_the_first_module_is_light() {
    let svg = to_svg_string(&off_corner(), 0, 10);
    assert!(svg.contains("viewBox=\"0 0 20 20\" width=\"20\" height=\"20\""));
    assert!(svg.contains("<path d=\" M10,0h10v10h-10z\" fill=\"#000000\"/>"));
}

#[test]
fn svg_of_the_empty_grid_has_an_empty_path() {
    let m = SymbolMatrix::from_rows(Vec::new()).unwrap();
    let svg = to_svg_string(&m, 2, 5);
    assert!(svg.contains("viewBox=\"0 0 20 20\""));
    assert!(svg.contains("<path d=\"\" fill=\"#000000\"/>"));
}

#[test]
fn svg_without_border_at_scale_one_is_as_wide_as_the_symbol() {
    let m = encode("https://example.com", EccLevel::Medium).unwrap();
    let n = m.side();
    let svg = to_svg_string(&m, 0, 1);
    let view = format!("viewBox=\"0 0 {0} {0}\" width=\"{0}\" height=\"{0}\"", n);
    assert!(svg.contains(&view));
    assert!(svg.contains("<path d=\"M0,0h1v1h-1z M1,0h1v1h-1z"));
}

#[test]
fn svg_is_the_same_every_time_and_has_unix_line_ends() {
    let m = encode("https://example.com", EccLevel::Medium).unwrap();
    let first = to_svg_string(&m, 4, 10);
    let second = to_svg_string(&m, 4, 10);
    assert_eq!(first, second);
    assert!(!first.contains('\r'));
    assert!(first.ends_with("</svg>\n"));
    assert_eq!(first.matches('\n').count(), 6);
}

#[test]
fn svg_has_one_subpath_for_each_dark_module() {
    let m = encode("HELLO WORLD", EccLevel::Quartile).unwrap();
    let mut dark = 0;
    for y in 0..m.side() {
        for x in 0..m.side() {
            if m.module(x, y) {
                dark += 1;
            }
        }
    }
    let svg = to_svg_string(&m, 4, 10);
    assert_eq!(svg.matches('M').count(), dark);
    assert_eq!(svg.matches('z').count(), dark);
    assert!(svg.contains(&format!("viewBox=\"0 0 {0} {0}\"", (m.side() + 8) * 10)));
}

#[test]
fn svg_numbers_of_several_digits() {
    let m = SymbolMatrix::from_rows(vec![vec![true]]).unwrap();
    let svg = to_svg_string(&m, 1000, 2047);
    assert!(svg.contains("viewBox=\"0 0 4096047 4096047\""));
    assert!(svg.contains("<path d=\"M2047000,2047000h2047v2047h-2047z\""));
}

#[test]
fn raster_without_border_at_scale_one_has_a_pixel_for_each_module() {
    let r = to_scaled_raster(&corner(), 0, 1);
    assert_eq!(r.width(), 2);
    assert_eq!(r.height(), 2);
    assert_eq!(r.pixels(), &vec![0u8, 255, 0, 0]);
}

#[test]
fn raster_with_a_border_at_scale_one() {
    let r = to_scaled_raster(&corner(), 1, 1);
    assert_eq!(r.width(), 4);
    assert_eq!(r.height(), 4);
    let w = 255u8;
    assert_eq!(r.pixels(), &vec![w, w, w, w, w, 0, w, w, w, 0, 0, w, w, w, w, w]);
}

#[test]
fn raster_at_a_larger_scale_repeats_each_module() {
    let scale = 3usize;
    let border = 1usize;
    let m = corner();
    let r = to_scaled_raster(&m, border as i32, scale as u32);
    let side = (m.side() + 2 * border) * scale;
    assert_eq!(r.width() as usize, side);
    assert_eq!(r.height() as usize, side);
    assert_eq!(r.pixels().len(), side * side);
    for py in 0..side {
        for px in 0..side {
            let (cx, cy) = (px / scale, py / scale);
            let inside = cx >= border && cy >= border;
            let dark = inside && m.module(cx - border, cy - border);
            assert_eq!(r.pixels()[py * side + px], if dark { 0 } else { 255 });
        }
    }
}

#[test]
fn raster_example_is_ten_pixels_to_a_module() {
    let m = encode("https://example.com", EccLevel::Medium).unwrap();
    let n = m.side();
    let r = to_scaled_raster(&m, 4, 10);
    assert_eq!(r.width() as usize, (n + 8) * 10);
    assert_eq!(r.height() as usize, (n + 8) * 10);
    let side = (n + 8) * 10;
    for y in 0..n {
        for x in 0..n {
            let at = ((y + 4) * 10 + 5) * side + (x + 4) * 10 + 5;
            assert_eq!(r.pixels()[at] == 0, m.module(x, y));
        }
    }
    assert_eq!(r.pixels()[0], 255);
    assert_eq!(r.pixels()[39 * side + 39], 255);
}

#[test]
fn raster_of_the_empty_grid_without_border_is_empty() {
    let m = SymbolMatrix::from_rows(Vec::new()).unwrap();
    let r = to_scaled_raster(&m, 0, 7);
    assert_eq!(r.width(), 0);
    assert_eq!(r.height(), 0);
    assert!(r.pixels().is_empty());
}

#[test]
fn fits_raster_knows_the_limits() {
    assert!(fits_raster(21, 4, 10));
    assert!(fits_raster(177, 4, 10));
    assert!(fits_raster(0, 0, 1));
    assert!(!fits_raster(21, 4, u32::MAX));
    assert!(!fits_raster(usize::MAX, i32::MAX, 1));
    assert!(!fits_raster(1, 0, 3_100_000_000));
}

#[test]
fn renderings_show_the_same_pattern() {
    let m = encode("consistent", EccLevel::High).unwrap();
    let n = m.side();
    let text: Vec<char> = text_art(&m).chars().collect();
    let line = 2 * (n + 8) + 1;
    let border = 2usize;
    let raster = to_scaled_raster(&m, border as i32, 1);
    let svg = to_svg_string(&m, border as i32, 1);
    for y in 0..n {
        for x in 0..n {
            let dark = m.module(x, y);
            assert_eq!(text[(y + 4) * line + 2 * (x + 4)] == '\u{2588}', dark);
            assert_eq!(text[(y + 4) * line + 2 * (x + 4) + 1] == '\u{2588}', dark);
            assert_eq!(raster.pixels()[(y + border) * (n + 2 * border) + x + border] == 0, dark);
            let sub = format!("M{},{}h1v1h-1z", x + border, y + border);
            assert_eq!(svg.contains(&sub), dark);
        }
    }
}
