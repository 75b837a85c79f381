use tai::terminal::engine::viewport_row_text;
use tai::terminal::paint::{
    braille_dots, cell_paint, cursor_paint, resolve_color, terminal_codepoints, CellStyle,
    Glyph, ScreenColors, StyleColor,
};

fn colors() -> ScreenColors {
    let mut palette = [(0u8, 0u8, 0u8); 256];
    palette[1] = (205, 49, 49);
    ScreenColors {
        foreground: (200, 200, 200),
        background: (26, 27, 30),
        cursor: (255, 0, 0),
        cursor_has_value: false,
        palette,
    }
}

fn plain() -> CellStyle {
    CellStyle {
        fg_color: StyleColor::Default,
        bg_color: StyleColor::Default,
        bold: false,
        italic: false,
        faint: false,
        inverse: false,
        invisible: false,
        strikethrough: false,
        underline: 0,
    }
}

fn cps(v: &[u32]) -> [u32; 16] {
    let mut a = [0u32; 16];
    a[..v.len()].copy_from_slice(v);
    a
}

#[test]
fn colors_resolve_by_kind() {
    let c = colors();
    assert_eq!(resolve_color(StyleColor::Rgb(1, 2, 3), &c, (9, 9, 9)), (1, 2, 3));
    assert_eq!(resolve_color(StyleColor::Palette(1), &c, (9, 9, 9)), (205, 49, 49));
    assert_eq!(resolve_color(StyleColor::Default, &c, (9, 9, 9)), (9, 9, 9));
}

#[test]
fn empty_cells_fill_only_an_explicit_background() {
    let c = colors();
    let p = cell_paint(&plain(), &c, 16, 0, &cps(&[]));
    assert!(p.background.is_none() && p.glyph.is_none());
    let mut s = plain();
    s.bg_color = StyleColor::Palette(1);
    s.inverse = true;
    let q = cell_paint(&s, &c, 16, 0, &cps(&[]));
    assert_eq!(q.background, Some((205, 49, 49)));
    assert!(q.glyph.is_none());
}

#[test]
fn inverse_swaps_colors_and_fills_the_background() {
    let c = colors();
    let mut s = plain();
    s.inverse = true;
    s.faint = true;
    let p = cell_paint(&s, &c, 16, 1, &cps(&['x' as u32]));
    assert_eq!(p.background, Some((200, 200, 200)));
    match p.glyph {
        Some(Glyph::Text { text, color, .. }) => {
            assert_eq!(text, "x");
            assert_eq!(color, (26, 27, 30, 128));
        }
        _ => panic!("expected text"),
    }
}

#[test]
fn text_attributes_carry_over() {
    let c = colors();
    let mut s = plain();
    s.italic = true;
    s.bold = true;
    s.underline = 2;
    s.strikethrough = true;
    s.fg_color = StyleColor::Rgb(10, 20, 30);
    let p = cell_paint(&s, &c, 18, 2, &cps(&['e' as u32, 0x301]));
    assert!(p.background.is_none());
    match p.glyph {
        Some(Glyph::Text { text, color, x_offset, bold, underline, strikethrough }) => {
            assert_eq!(text, "e\u{301}");
            assert_eq!(color, (10, 20, 30, 255));
            assert_eq!(x_offset, 3);
            assert!(bold && underline && strikethrough);
        }
        _ => panic!("expected text"),
    }
}

#[test]
fn invisible_cells_show_no_glyph_and_braille_is_drawn_as_dots() {
    let c = colors();
    let mut s = plain();
    s.invisible = true;
    assert!(cell_paint(&s, &c, 16, 1, &cps(&['x' as u32])).glyph.is_none());
    match cell_paint(&plain(), &c, 16, 1, &cps(&[0x2805])).glyph {
        Some(Glyph::Braille { pattern, color }) => {
            assert_eq!(pattern, 5);
            assert_eq!(color, (200, 200, 200, 255));
        }
        _ => panic!("expected braille"),
    }
    assert_eq!(braille_dots(5), vec![(0, 0), (2, 0)]);
    assert_eq!(braille_dots(0xFF).len(), 8);
    assert_eq!(braille_dots(0x80), vec![(3, 1)]);
}

#[test]
fn long_graphemes_are_cut_at_sixteen_code_points() {
    let c = colors();
    let all: Vec<u32> = (0..16).map(|i| 'a' as u32 + i).collect();
    match cell_paint(&plain(), &c, 16, 40, &cps(&all)).glyph {
        Some(Glyph::Text { text, .. }) => assert_eq!(text, "abcdefghijklmnop"),
        _ => panic!("expected text"),
    }
}

#[test]
fn cursor_is_half_transparent_in_its_color() {
    let mut c = colors();
    assert_eq!(cursor_paint(true, true, 3, 2, &c, 4, 10, 20), Some((34, 44, (200, 200, 200, 128))));
    c.cursor_has_value = true;
    assert_eq!(cursor_paint(true, true, 0, 0, &c, 4, 10, 20), Some((4, 4, (255, 0, 0, 128))));
    assert_eq!(cursor_paint(false, true, 0, 0, &c, 4, 10, 20), None);
    assert_eq!(cursor_paint(true, false, 0, 0, &c, 4, 10, 20), None);
}

#[test]
fn font_code_points_cover_the_blocks() {
    let cps = terminal_codepoints();
    assert_eq!(cps[0], 32);
    assert_eq!(cps[94], 126);
    assert_eq!(cps[95], 160);
    assert!(cps.contains(&0x2800) && cps.contains(&0xF0FF));
    assert!(!cps.contains(&127));
    assert_eq!(*cps.last().unwrap(), 0xF0FF);
}

#[test]
fn viewport_rows_fill_blanks_and_trim_the_end() {
    let cells = vec![
        (1u32, cps(&['a' as u32])),
        (0u32, cps(&[])),
        (2u32, cps(&['b' as u32, 0xD800])),
        (0u32, cps(&[])),
        (0u32, cps(&[])),
    ];
    assert_eq!(viewport_row_text(&cells), "a b");
    assert_eq!(viewport_row_text(&[]), "");
}
