use tai::minimap::{palette_256, parse_unsigned, LineInfo, Minimap, ParserState};

fn line(rgb: (u8, u8, u8), filled: u32, of: u32) -> LineInfo {
    LineInfo { r: rgb.0, g: rgb.1, b: rgb.2, filled, of }
}

const GREY: (u8, u8, u8) = (200, 200, 200);

#[test]
fn palette_has_sixteen_colors_a_cube_and_a_gray_ramp() {
    assert_eq!(palette_256(0), (0, 0, 0));
    assert_eq!(palette_256(1), (205, 49, 49));
    assert_eq!(palette_256(15), (255, 255, 255));
    assert_eq!(palette_256(16), (0, 0, 0));
    assert_eq!(palette_256(21), (0, 0, 255));
    assert_eq!(palette_256(196), (255, 0, 0));
    assert_eq!(palette_256(231), (255, 255, 255));
    assert_eq!(palette_256(232), (8, 8, 8));
    assert_eq!(palette_256(255), (238, 238, 238));
}

#[test]
fn new_minimap_is_empty() {
    let m = Minimap::new(80);
    assert!(m.lines.is_empty());
    assert_eq!(m.cols, 80);
    assert_eq!(m.width, 40);
    assert_eq!(m.state, ParserState::Normal);
    assert!(!m.in_alt_screen);
}

#[test]
fn plain_line_becomes_one_row() {
    let mut m = Minimap::new(10);
    m.feed(b"hello\n");
    assert_eq!(m.lines, vec![line(GREY, 5, 10)]);
}

#[test]
fn long_line_wraps_at_the_column_count() {
    let mut m = Minimap::new(10);
    let mut bytes = vec![b'a'; 25];
    bytes.push(b'\n');
    m.feed(&bytes);
    assert_eq!(m.lines, vec![line(GREY, 10, 10), line(GREY, 10, 10), line(GREY, 5, 10)]);
}

#[test]
fn exact_multiple_of_columns_leaves_no_partial_row() {
    let mut m = Minimap::new(4);
    m.feed(b"abcdefgh\n");
    assert_eq!(m.lines, vec![line(GREY, 4, 4), line(GREY, 4, 4)]);
}

#[test]
fn sgr_color_tints_the_line() {
    let mut m = Minimap::new(10);
    m.feed(b"\x1b[31mred\n");
    assert_eq!(m.lines, vec![line((205, 49, 49), 3, 10)]);
    assert_eq!(m.current_fg, (205, 49, 49));
}

#[test]
fn bright_and_truecolor_and_indexed_colors() {
    let mut m = Minimap::new(10);
    m.feed(b"\x1b[91mx\n\x1b[38;2;1;2;3my\n\x1b[38;5;196mz\n");
    assert_eq!(
        m.lines,
        vec![line((241, 76, 76), 1, 10), line((1, 2, 3), 1, 10), line((255, 0, 0), 1, 10)]
    );
}

#[test]
fn reset_keeps_the_color_seen_on_the_line() {
    let mut m = Minimap::new(10);
    m.feed(b"\x1b[32mok\x1b[0m done\n");
    assert_eq!(m.lines, vec![line((13, 188, 121), 7, 10)]);
    assert_eq!(m.current_fg, GREY);
}

#[test]
fn carriage_return_keeps_the_longest_run() {
    let mut m = Minimap::new(20);
    m.feed(b"abcdef\rxy\n");
    assert_eq!(m.lines, vec![line(GREY, 6, 20)]);
}

#[test]
fn alternate_screen_lines_are_not_recorded() {
    let mut m = Minimap::new(10);
    m.feed(b"\x1b[?1049hfull screen\n");
    assert!(m.in_alt_screen);
    assert!(m.lines.is_empty());
    m.feed(b"\x1b[?1049lback\n");
    assert!(!m.in_alt_screen);
    assert_eq!(m.lines, vec![line(GREY, 4, 10)]);
}

#[test]
fn feeding_in_pieces_equals_feeding_at_once() {
    let data: &[u8] = b"one\n\x1b[33mtwo\nthree and more text\n";
    let mut whole = Minimap::new(8);
    whole.feed(data);
    let mut parts = Minimap::new(8);
    parts.feed(&data[..6]);
    parts.feed(&data[6..]);
    assert_eq!(whole.lines, parts.lines);
    assert_eq!(whole.current_fg, parts.current_fg);
}

#[test]
fn rebuild_wraps_each_text_line() {
    let mut m = Minimap::new(10);
    m.feed(b"\x1b[31mstale\n");
    m.rebuild_from_text("ab\n\ncdefghijklmno");
    assert_eq!(
        m.lines,
        vec![line(GREY, 2, 10), line(GREY, 0, 10), line(GREY, 10, 10), line(GREY, 3, 10)]
    );
    assert_eq!(m.current_fg, GREY);
}

#[test]
fn rebuild_without_columns_gives_nothing() {
    let mut m = Minimap::new(0);
    m.rebuild_from_text("abc\ndef");
    assert!(m.lines.is_empty());
}

#[test]
fn set_cols_changes_the_wrap() {
    let mut m = Minimap::new(10);
    m.set_cols(3);
    m.feed(b"abcd\n");
    assert_eq!(m.lines, vec![line(GREY, 3, 3), line(GREY, 1, 3)]);
}

#[test]
fn unsigned_numbers_parse_within_a_bound() {
    assert_eq!(parse_unsigned(&['4', '2'], 255), Some(42));
    assert_eq!(parse_unsigned(&['2', '5', '6'], 255), None);
    assert_eq!(parse_unsigned(&[], 255), None);
    assert_eq!(parse_unsigned(&['1', 'x'], 255), None);
    assert_eq!(parse_unsigned(&['+', '7'], 255), Some(7));
    assert_eq!(parse_unsigned(&['+'], 255), None);
}
