//! How a cell of the terminal is painted: its colors after inverse video,
//! whether its background and its glyph are drawn and how, the dots of a
//! braille character, and the cursor.
use vstd::prelude::*;

use crate::minimap::Rgb;
use crate::status_bar::Rgba;
use crate::tab_bar::{div_toward_zero, trunc_div};
use crate::terminal::input::{char_from_code, is_scalar_value, scalar_chars};

verus! {

/// A color of a cell's style: the default, an entry of the palette, or a
/// color of its own.
#[derive(Clone, Copy, Debug, PartialEq, Eq, Structural)]
pub enum StyleColor {
    Default,
    Palette(u8),
    Rgb(u8, u8, u8),
}

/// The style of a cell.
#[derive(Clone, Copy, Debug, PartialEq, Eq, Structural)]
pub struct CellStyle {
    pub fg_color: StyleColor,
    pub bg_color: StyleColor,
    pub bold: bool,
    pub italic: bool,
    pub faint: bool,
    pub inverse: bool,
    pub invisible: bool,
    pub strikethrough: bool,
    /// The kind of underline, 0 for none.
    pub underline: i32,
}

/// The colors of the screen: default foreground and background, the
/// cursor's color when it has one, and the palette.
pub struct ScreenColors {
    pub foreground: Rgb,
    pub background: Rgb,
    pub cursor: Rgb,
    pub cursor_has_value: bool,
    pub palette: [Rgb; 256],
}

/// The color a style color stands for, `fallback` for the default.
pub open spec fn resolve_color_spec(c: StyleColor, palette: Seq<Rgb>, fallback: Rgb) -> Rgb {
    match c {
        StyleColor::Rgb(r, g, b) => (r, g, b),
        StyleColor::Palette(i) => palette[i as int],
        StyleColor::Default => fallback,
    }
}

/// [`resolve_color_spec`].
pub fn resolve_color(c: StyleColor, colors: &ScreenColors, fallback: Rgb) -> (r: Rgb)
    ensures
        r == resolve_color_spec(c, colors.palette@, fallback),
{
    match c {
        StyleColor::Rgb(r, g, b) => (r, g, b),
        StyleColor::Palette(i) => colors.palette[i as usize],
        StyleColor::Default => fallback,
    }
}

/// What is drawn for the characters of a cell.
pub enum Glyph {
    /// A braille character, drawn as dots (see [`braille_dots`]).
    Braille { color: Rgba, pattern: u8 },
    /// Text, shifted right by `x_offset` for italics, drawn twice for bold.
    Text { text: String, color: Rgba, x_offset: i32, bold: bool, underline: bool, strikethrough: bool },
}

/// The plain content of a [`Glyph`].
pub enum GlyphView {
    Braille { color: Rgba, pattern: u8 },
    Text { text: Seq<char>, color: Rgba, x_offset: i32, bold: bool, underline: bool, strikethrough: bool },
}

impl View for Glyph {
    type V = GlyphView;

    open spec fn view(&self) -> GlyphView {
        match self {
            Glyph::Braille { color, pattern } => GlyphView::Braille { color: *color, pattern: *pattern },
            Glyph::Text { text, color, x_offset, bold, underline, strikethrough } => GlyphView::Text {
                text: text@,
                color: *color,
                x_offset: *x_offset,
                bold: *bold,
                underline: *underline,
                strikethrough: *strikethrough,
            },
        }
    }
}

/// How a cell is painted: the background to fill, if any, and the glyph,
/// if any.
pub struct CellPaint {
    pub background: Option<Rgb>,
    pub glyph: Option<Glyph>,
}

/// The plain content of a [`CellPaint`].
pub struct CellPaintView {
    pub background: Option<Rgb>,
    pub glyph: Option<GlyphView>,
}

impl View for CellPaint {
    type V = CellPaintView;

    open spec fn view(&self) -> CellPaintView {
        CellPaintView {
            background: self.background,
            glyph: match self.glyph {
                Some(g) => Some(g@),
                None => None,
            },
        }
    }
}

/// How many code points of a grapheme are read: at most 16.
pub open spec fn grapheme_count(len: u32) -> int {
    if len < 16 {
        len as int
    } else {
        16
    }
}

/// The characters of a grapheme of `len` code points held in `cps`.
pub open spec fn grapheme_chars(len: u32, cps: Seq<u32>) -> Seq<char> {
    scalar_chars(cps.subrange(0, grapheme_count(len)))
}

/// Alpha of text: half for faint text.
pub open spec fn text_alpha(faint: bool) -> u8 {
    if faint {
        128
    } else {
        255
    }
}

/// How a cell with `len` code points is painted. An empty cell fills its
/// background only when its style names one. Otherwise inverse video swaps
/// the colors and always fills the background; an invisible cell shows no
/// glyph; a lone braille character is drawn as dots; other text is drawn
/// with its attributes, faint text at half alpha and italic text shifted
/// by a sixth of the font size.
pub open spec fn cell_paint_spec(style: CellStyle, colors: ScreenColors, font_size: i32, len: u32, cps: Seq<u32>) -> CellPaintView {
    let b0 = resolve_color_spec(style.bg_color, colors.palette@, colors.background);
    if len == 0 {
        CellPaintView {
            background: if style.bg_color != StyleColor::Default {
                Some(b0)
            } else {
                None
            },
            glyph: None,
        }
    } else {
        let f0 = resolve_color_spec(style.fg_color, colors.palette@, colors.foreground);
        let fg = if style.inverse {
            b0
        } else {
            f0
        };
        let bg = if style.inverse {
            f0
        } else {
            b0
        };
        let color: Rgba = (fg.0, fg.1, fg.2, text_alpha(style.faint));
        CellPaintView {
            background: if style.bg_color != StyleColor::Default || style.inverse {
                Some(bg)
            } else {
                None
            },
            glyph: if style.invisible {
                None
            } else if grapheme_count(len) == 1 && 0x2800 <= cps[0] && cps[0] <= 0x28FF {
                Some(GlyphView::Braille { color, pattern: (cps[0] - 0x2800) as u8 })
            } else {
                Some(
                    GlyphView::Text {
                        text: grapheme_chars(len, cps),
                        color,
                        x_offset: if style.italic {
                            trunc_div(font_size as int, 6) as i32
                        } else {
                            0
                        },
                        bold: style.bold,
                        underline: style.underline != 0,
                        strikethrough: style.strikethrough,
                    },
                )
            },
        }
    }
}

/// A visible cell with text is drawn as text unless it is a single
/// braille character, underlined exactly when its style underlines it and
/// struck through exactly when its style strikes it through, bold exactly
/// when bold.
pub proof fn lemma_text_decorations(style: CellStyle, colors: ScreenColors, font_size: i32, len: u32, cps: Seq<u32>)
    requires
        cps.len() == 16,
        len > 0,
        !style.invisible,
        !(0x2800 <= cps[0] && cps[0] <= 0x28FF),
    ensures
        cell_paint_spec(style, colors, font_size, len, cps).glyph matches Some(GlyphView::Text { underline, strikethrough, bold, .. })
            && underline == (style.underline != 0) && strikethrough == style.strikethrough && bold == style.bold,
{
}

/// Inverse video swaps a visible cell's colors: the cell is filled with
/// the color its text would have had, and the text takes the color the
/// cell would have been filled with; without it, text takes the text color.
pub proof fn lemma_inverse_swaps_colors(style: CellStyle, colors: ScreenColors, font_size: i32, len: u32, cps: Seq<u32>)
    requires
        cps.len() == 16,
        len > 0,
        !style.invisible,
        !(0x2800 <= cps[0] && cps[0] <= 0x28FF),
    ensures
        ({
            let fg = resolve_color_spec(style.fg_color, colors.palette@, colors.foreground);
            let bg = resolve_color_spec(style.bg_color, colors.palette@, colors.background);
            let p = cell_paint_spec(style, colors, font_size, len, cps);
            &&& style.inverse ==> p.background == Some(fg)
            &&& style.inverse ==> (p.glyph matches Some(GlyphView::Text { color, .. }) && color.0 == bg.0
                && color.1 == bg.1 && color.2 == bg.2)
            &&& !style.inverse ==> (p.glyph matches Some(GlyphView::Text { color, .. }) && color.0 == fg.0
                && color.1 == fg.1 && color.2 == fg.2)
        }),
{
}

/// The characters of the first `n` code points, skipping those that are not
/// scalar values.
pub fn chars_of_codes(cps: &[u32], n: usize) -> (r: String)
    requires
        n <= cps@.len(),
    ensures
        r@ == scalar_chars(cps@.subrange(0, n as int)),
{
    let mut s = String::new();
    let mut i: usize = 0;
    while i < n
        invariant
            i <= n <= cps@.len(),
            s@ == scalar_chars(cps@.subrange(0, i as int)),
        decreases n - i,
    {
        let ghost q = cps@.subrange(0, i as int + 1);
        assert(q.drop_last() =~= cps@.subrange(0, i as int));
        assert(q.last() == cps@[i as int]);
        match char_from_code(cps[i]) {
            Some(c) => {
                proof {
                    crate::terminal::input::lemma_char_of_scalar(cps@[i as int], c);
                }
                s.push(c);
            },
            None => {},
        }
        assert(s@ =~= scalar_chars(q));
        i += 1;
    }
    s
}

/// [`cell_paint_spec`], for a cell whose grapheme has `grapheme_len` code
/// points, of which the first (at most 16) are in `codepoints`.
pub fn cell_paint(
    style: &CellStyle,
    colors: &ScreenColors,
    font_size: i32,
    grapheme_len: u32,
    codepoints: &[u32; 16],
) -> (r: CellPaint)
    ensures
        r@ == cell_paint_spec(*style, *colors, font_size, grapheme_len, codepoints@),
{
    let b0 = resolve_color(style.bg_color, colors, colors.background);
    let explicit_bg = style.bg_color != StyleColor::Default;
    if grapheme_len == 0 {
        return CellPaint {
            background: if explicit_bg {
                Some(b0)
            } else {
                None
            },
            glyph: None,
        };
    }
    let f0 = resolve_color(style.fg_color, colors, colors.foreground);
    let (fg, bg) = if style.inverse {
        (b0, f0)
    } else {
        (f0, b0)
    };
    let background = if explicit_bg || style.inverse {
        Some(bg)
    } else {
        None
    };
    if style.invisible {
        return CellPaint { background, glyph: None };
    }
    let alpha: u8 = if style.faint {
        128
    } else {
        255
    };
    let color: Rgba = (fg.0, fg.1, fg.2, alpha);
    let n: usize = if grapheme_len < 16 {
        grapheme_len as usize
    } else {
        16
    };
    let first = codepoints[0];
    if n == 1 && 0x2800 <= first && first <= 0x28FF {
        return CellPaint {
            background,
            glyph: Some(Glyph::Braille { color, pattern: (first - 0x2800) as u8 }),
        };
    }
    let text = chars_of_codes(codepoints.as_slice(), n);
    let x_offset: i32 = if style.italic {
        let q = div_toward_zero(font_size as i64, 6);
        assert(-357913942 <= q <= 357913941);
        q as i32
    } else {
        0
    };
    CellPaint {
        background,
        glyph: Some(
            Glyph::Text {
                text,
                color,
                x_offset,
                bold: style.bold,
                underline: style.underline != 0,
                strikethrough: style.strikethrough,
            },
        ),
    }
}

/// The bit of a braille pattern for dot `k` of the drawing order.
pub open spec fn braille_bit(k: int) -> int {
    if k == 0 {
        1
    } else if k == 1 {
        2
    } else if k == 2 {
        4
    } else if k == 3 {
        8
    } else if k == 4 {
        16
    } else if k == 5 {
        32
    } else if k == 6 {
        64
    } else {
        128
    }
}

/// Row and column of dot `k` of the drawing order: the first three dots
/// down the left column, the next three down the right, then the bottom
/// row, left and right.
pub open spec fn braille_place(k: int) -> (i32, i32) {
    if k == 0 {
        (0, 0)
    } else if k == 1 {
        (1, 0)
    } else if k == 2 {
        (2, 0)
    } else if k == 3 {
        (0, 1)
    } else if k == 4 {
        (1, 1)
    } else if k == 5 {
        (2, 1)
    } else if k == 6 {
        (3, 0)
    } else {
        (3, 1)
    }
}

/// The places of the raised dots among the first `n` of the drawing order.
pub open spec fn braille_dots_spec(pattern: u8, n: int) -> Seq<(i32, i32)>
    decreases n,
{
    if n <= 0 {
        Seq::empty()
    } else {
        braille_dots_spec(pattern, n - 1) + if (pattern as int / braille_bit(n - 1)) % 2 == 1 {
            seq![braille_place(n - 1)]
        } else {
            Seq::<(i32, i32)>::empty()
        }
    }
}

/// The raised dots of a braille pattern (its character less U+2800), as
/// row and column, in drawing order.
pub fn braille_dots(pattern: u8) -> (r: Vec<(i32, i32)>)
    ensures
        r@ == braille_dots_spec(pattern, 8),
{
    let bits: [u8; 8] = [1, 2, 4, 8, 16, 32, 64, 128];
    let places: [(i32, i32); 8] = [(0, 0), (1, 0), (2, 0), (0, 1), (1, 1), (2, 1), (3, 0), (3, 1)];
    let mut r: Vec<(i32, i32)> = Vec::new();
    let mut k: usize = 0;
    while k < 8
        invariant
            k <= 8,
            forall|j: int| 0 <= j < 8 ==> bits@[j] as int == braille_bit(j),
            forall|j: int| 0 <= j < 8 ==> places@[j] == braille_place(j),
            r@ == braille_dots_spec(pattern, k as int),
        decreases 8 - k,
    {
        let bit = bits[k];
        assert(bit as int == braille_bit(k as int));
        if (pattern / bit) % 2 == 1 {
            r.push(places[k]);
        }
        k += 1;
    }
    r
}

/// The cursor's color: its own when it has one, else the foreground.
pub open spec fn cursor_color_spec(colors: ScreenColors) -> Rgb {
    if colors.cursor_has_value {
        colors.cursor
    } else {
        colors.foreground
    }
}

/// Where the cursor is drawn and in what color (half transparent), when it
/// is visible and in the view.
pub fn cursor_paint(
    visible: bool,
    in_viewport: bool,
    cx: u16,
    cy: u16,
    colors: &ScreenColors,
    pad: i32,
    cell_width: i32,
    cell_height: i32,
) -> (r: Option<(i32, i32, Rgba)>)
    requires
        i32::MIN <= pad + cx * cell_width <= i32::MAX,
        i32::MIN <= pad + cy * cell_height <= i32::MAX,
    ensures
        r == if visible && in_viewport {
            let c = cursor_color_spec(*colors);
            Some(((pad + cx * cell_width) as i32, (pad + cy * cell_height) as i32, (c.0, c.1, c.2, 128u8)))
        } else {
            None
        },
{
    if !(visible && in_viewport) {
        return None;
    }
    let c = if colors.cursor_has_value {
        colors.cursor
    } else {
        colors.foreground
    };
    let px = (cx as i64) * (cell_width as i64);
    let py = (cy as i64) * (cell_height as i64);
    assert(-140737488355328 <= px <= 140737488355328) by (nonlinear_arith)
        requires
            px == (cx as i64) * (cell_width as i64),
            0 <= cx < 65536,
            -2147483648 <= cell_width < 2147483648,
    ;
    assert(-140737488355328 <= py <= 140737488355328) by (nonlinear_arith)
        requires
            py == (cy as i64) * (cell_height as i64),
            0 <= cy < 65536,
            -2147483648 <= cell_height < 2147483648,
    ;
    let x = (pad as i64 + px) as i32;
    let y = (pad as i64 + py) as i32;
    Some((x, y, (c.0, c.1, c.2, 128)))
}

/// The blocks of code points the terminal's font is loaded with, each as
/// its first and last code point: printable ASCII, Latin-1, Latin Extended,
/// punctuation, sub- and superscripts, currency, letterlike symbols, number
/// forms, arrows, mathematical and technical symbols, control pictures,
/// enclosed alphanumerics, box drawing, blocks, shapes, symbols, dingbats,
/// arrows, braille, Powerline and icon glyphs.
pub open spec fn glyph_blocks() -> Seq<(i32, i32)> {
    seq![
        (32i32, 126i32),
        (160i32, 255i32),
        (0x100i32, 0x17Fi32),
        (0x180i32, 0x24Fi32),
        (0x2000i32, 0x206Fi32),
        (0x2070i32, 0x209Fi32),
        (0x20A0i32, 0x20CFi32),
        (0x2100i32, 0x214Fi32),
        (0x2150i32, 0x218Fi32),
        (0x2190i32, 0x21FFi32),
        (0x2200i32, 0x22FFi32),
        (0x2300i32, 0x23FFi32),
        (0x2400i32, 0x243Fi32),
        (0x2460i32, 0x24FFi32),
        (0x2500i32, 0x257Fi32),
        (0x2580i32, 0x259Fi32),
        (0x25A0i32, 0x25FFi32),
        (0x2600i32, 0x26FFi32),
        (0x2700i32, 0x27BFi32),
        (0x27C0i32, 0x27FFi32),
        (0x2800i32, 0x28FFi32),
        (0x2900i32, 0x297Fi32),
        (0xE0A0i32, 0xE0D4i32),
        (0xE200i32, 0xE2FFi32),
        (0xF000i32, 0xF0FFi32),
    ]
}

/// The code points of the blocks, in order, each block from its first to
/// its last code point.
pub open spec fn block_codes(blocks: Seq<(i32, i32)>) -> Seq<i32>
    decreases blocks.len(),
{
    if blocks.len() == 0 {
        Seq::empty()
    } else {
        let (lo, hi) = blocks.last();
        block_codes(blocks.drop_last()) + Seq::new((hi - lo + 1) as nat, |i: int| (lo + i) as i32)
    }
}

/// The code points the terminal's font is loaded with, as
/// [`block_codes`] of [`glyph_blocks`].
pub fn terminal_codepoints() -> (r: Vec<i32>)
    ensures
        r@ == block_codes(glyph_blocks()),
{
    let blocks: [(i32, i32); 25] = [
        (32, 126),
        (160, 255),
        (0x100, 0x17F),
        (0x180, 0x24F),
        (0x2000, 0x206F),
        (0x2070, 0x209F),
        (0x20A0, 0x20CF),
        (0x2100, 0x214F),
        (0x2150, 0x218F),
        (0x2190, 0x21FF),
        (0x2200, 0x22FF),
        (0x2300, 0x23FF),
        (0x2400, 0x243F),
        (0x2460, 0x24FF),
        (0x2500, 0x257F),
        (0x2580, 0x259F),
        (0x25A0, 0x25FF),
        (0x2600, 0x26FF),
        (0x2700, 0x27BF),
        (0x27C0, 0x27FF),
        (0x2800, 0x28FF),
        (0x2900, 0x297F),
        (0xE0A0, 0xE0D4),
        (0xE200, 0xE2FF),
        (0xF000, 0xF0FF),
    ];
    assert(blocks@ =~= glyph_blocks());
    let mut out: Vec<i32> = Vec::new();
    let mut b: usize = 0;
    while b < 25
        invariant
            b <= 25,
            blocks@ == glyph_blocks(),
            forall|k: int| 0 <= k < 25 ==> 0 < (#[trigger] blocks@[k]).0 <= blocks@[k].1 < 0x10000,
            out@ == block_codes(blocks@.subrange(0, b as int)),
        decreases 25 - b,
    {
        let (lo, hi) = blocks[b];
        let ghost base = out@;
        let mut c: i32 = lo;
        while c <= hi
            invariant
                0 < lo <= c <= hi + 1,
                hi < 0x10000,
                out@ == base + Seq::new((c - lo) as nat, |i: int| (lo + i) as i32),
            decreases hi + 1 - c,
        {
            out.push(c);
            assert(out@ =~= base + Seq::new((c + 1 - lo) as nat, |i: int| (lo + i) as i32));
            c += 1;
        }
        let ghost q = blocks@.subrange(0, b as int + 1);
        assert(q.drop_last() =~= blocks@.subrange(0, b as int));
        assert(q.last() == blocks@[b as int]);
        b += 1;
    }
    assert(blocks@.subrange(0, 25) == blocks@);
    out
}

} // verus!
