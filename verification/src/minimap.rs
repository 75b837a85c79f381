//! The minimap beside a terminal: one entry per screen line of output,
//! with the line's color and how much of its width it fills, read from the
//! bytes the shell writes.
//!
//! How full a line is stays a fraction (`filled` of `of` columns), so that
//! the parser is integer arithmetic; drawing turns it into pixels.
use vstd::prelude::*;
use vstd::utf8::{decode_utf8, valid_utf8};

use crate::text::{chars_of, split_chars, split_spec, string_of};

verus! {

/// A color as red, green and blue.
pub type Rgb = (u8, u8, u8);

/// The color of text that sets none.
pub open spec fn default_fg() -> Rgb {
    (200, 200, 200)
}

/// [`default_fg`].
pub fn default_fg_exec() -> (r: Rgb)
    ensures
        r == default_fg(),
{
    (200, 200, 200)
}

/// The sixteen basic colors.
pub open spec fn palette_16(i: int) -> Rgb {
    if i == 0 {
        (0, 0, 0)
    } else if i == 1 {
        (205, 49, 49)
    } else if i == 2 {
        (13, 188, 121)
    } else if i == 3 {
        (229, 229, 16)
    } else if i == 4 {
        (36, 114, 200)
    } else if i == 5 {
        (188, 63, 188)
    } else if i == 6 {
        (17, 168, 205)
    } else if i == 7 {
        (229, 229, 229)
    } else if i == 8 {
        (102, 102, 102)
    } else if i == 9 {
        (241, 76, 76)
    } else if i == 10 {
        (35, 209, 139)
    } else if i == 11 {
        (245, 245, 67)
    } else if i == 12 {
        (59, 142, 234)
    } else if i == 13 {
        (214, 112, 214)
    } else if i == 14 {
        (41, 184, 219)
    } else {
        (255, 255, 255)
    }
}

fn palette_16_exec(i: u8) -> (r: Rgb)
    requires
        i < 16,
    ensures
        r == palette_16(i as int),
{
    match i {
        0 => (0, 0, 0),
        1 => (205, 49, 49),
        2 => (13, 188, 121),
        3 => (229, 229, 16),
        4 => (36, 114, 200),
        5 => (188, 63, 188),
        6 => (17, 168, 205),
        7 => (229, 229, 229),
        8 => (102, 102, 102),
        9 => (241, 76, 76),
        10 => (35, 209, 139),
        11 => (245, 245, 67),
        12 => (59, 142, 234),
        13 => (214, 112, 214),
        14 => (41, 184, 219),
        _ => (255, 255, 255),
    }
}

/// A level of the 6×6×6 color cube.
pub open spec fn cube_level(v: int) -> u8 {
    if v == 0 {
        0
    } else {
        (55 + 40 * v) as u8
    }
}

/// A color of the 256-color palette: the basic sixteen, the color cube,
/// then 24 grays.
pub open spec fn palette_256_spec(idx: u8) -> Rgb {
    if idx < 16 {
        palette_16(idx as int)
    } else if idx < 232 {
        let i = idx - 16;
        (cube_level((i / 36) % 6), cube_level((i / 6) % 6), cube_level(i % 6))
    } else {
        let gray = (8 + 10 * (idx - 232)) as u8;
        (gray, gray, gray)
    }
}

fn cube_level_exec(v: u8) -> (r: u8)
    requires
        v < 6,
    ensures
        r == cube_level(v as int),
{
    if v == 0 {
        0
    } else {
        55 + 40 * v
    }
}

/// [`palette_256_spec`].
pub fn palette_256(idx: u8) -> (r: Rgb)
    ensures
        r == palette_256_spec(idx),
{
    if idx < 16 {
        return palette_16_exec(idx);
    }
    if idx < 232 {
        let i = idx - 16;
        return (cube_level_exec((i / 36) % 6), cube_level_exec((i / 6) % 6), cube_level_exec(i % 6));
    }
    let gray = 8 + 10 * (idx - 232);
    (gray, gray, gray)
}

/// One line of the minimap: its color and the columns it fills, `filled`
/// of `of` (nothing when `of` is zero).
#[derive(Clone, Copy, Debug, PartialEq, Eq, Structural)]
pub struct LineInfo {
    pub r: u8,
    pub g: u8,
    pub b: u8,
    pub filled: u32,
    pub of: u32,
}

/// Where the parser is in an escape sequence.
#[derive(Clone, Copy, Debug, PartialEq, Eq, Structural)]
pub enum ParserState {
    Normal,
    EscSeen,
    CsiParam,
}

/// The lines of output, as colored fractions of the width, and the parser
/// that reads them from the shell's bytes.
pub struct Minimap {
    pub lines: Vec<LineInfo>,
    pub current_fg: Rgb,
    pub line_fg: Rgb,
    pub line_has_color: bool,
    pub current_line_chars: u32,
    pub max_line_chars: u32,
    pub state: ParserState,
    pub escape_buf: Vec<u8>,
    pub in_alt_screen: bool,
    pub cols: u16,
    /// Width of the minimap in pixels.
    pub width: i32,
    /// The viewport indicator is being dragged.
    pub dragging: bool,
}

/// A line that fills `filled` of `cols` columns in color `fg`.
pub open spec fn line_of(fg: Rgb, filled: u32, cols: u32) -> LineInfo {
    LineInfo { r: fg.0, g: fg.1, b: fg.2, filled, of: cols }
}

/// The minimap lines of an output line of `chars` characters, wrapped at
/// `cols` columns: full lines, then what is left; a line that does not wrap
/// fills its share (nothing without columns).
pub open spec fn wrapped_lines(fg: Rgb, chars: u32, cols: u32) -> Seq<LineInfo> {
    if cols > 0 && chars > cols {
        let full = Seq::new((chars / cols) as nat, |i: int| line_of(fg, cols, cols));
        if chars % cols > 0 {
            full.push(line_of(fg, (chars % cols) as u32, cols))
        } else {
            full
        }
    } else if cols > 0 {
        seq![line_of(fg, chars, cols)]
    } else {
        seq![line_of(fg, 0, 0)]
    }
}

fn push_wrapped(lines: &mut Vec<LineInfo>, fg: Rgb, chars: u32, cols: u32)
    ensures
        final(lines)@ == old(lines)@ + wrapped_lines(fg, chars, cols),
{
    if cols > 0 && chars > cols {
        let full_rows = chars / cols;
        let remainder = chars % cols;
        let mut k: u32 = 0;
        while k < full_rows
            invariant
                k <= full_rows,
                full_rows == chars / cols,
                cols > 0,
                lines@ == old(lines)@ + Seq::new(k as nat, |i: int| line_of(fg, cols, cols)),
            decreases full_rows - k,
        {
            lines.push(LineInfo { r: fg.0, g: fg.1, b: fg.2, filled: cols, of: cols });
            assert(Seq::new((k + 1) as nat, |i: int| line_of(fg, cols, cols)) =~= Seq::new(
                k as nat,
                |i: int| line_of(fg, cols, cols),
            ).push(line_of(fg, cols, cols)));
            k += 1;
        }
        if remainder > 0 {
            lines.push(LineInfo { r: fg.0, g: fg.1, b: fg.2, filled: remainder, of: cols });
        }
    } else if cols > 0 {
        lines.push(LineInfo { r: fg.0, g: fg.1, b: fg.2, filled: chars, of: cols });
    } else {
        lines.push(LineInfo { r: fg.0, g: fg.1, b: fg.2, filled: 0, of: 0 });
    }
}

/// The parsed state of a minimap.
pub struct MinimapView {
    pub lines: Seq<LineInfo>,
    pub current_fg: Rgb,
    pub line_fg: Rgb,
    pub line_has_color: bool,
    pub current_line_chars: u32,
    pub max_line_chars: u32,
    pub state: ParserState,
    pub escape: Seq<u8>,
    pub in_alt_screen: bool,
    pub cols: u16,
}

impl Minimap {
    /// The parsed state.
    pub open spec fn view(&self) -> MinimapView {
        MinimapView {
            lines: self.lines@,
            current_fg: self.current_fg,
            line_fg: self.line_fg,
            line_has_color: self.line_has_color,
            current_line_chars: self.current_line_chars,
            max_line_chars: self.max_line_chars,
            state: self.state,
            escape: self.escape_buf@,
            in_alt_screen: self.in_alt_screen,
            cols: self.cols,
        }
    }
}

/// Ending an output line: outside the alternate screen its minimap lines
/// are added, in the line's own color if it set one, else the current one;
/// the line's counters start over either way.
pub open spec fn commit_line_spec(m: MinimapView) -> MinimapView {
    let reset = MinimapView {
        current_line_chars: 0,
        max_line_chars: 0,
        line_has_color: false,
        ..m
    };
    if m.in_alt_screen {
        reset
    } else {
        let chars = if m.current_line_chars > m.max_line_chars {
            m.current_line_chars
        } else {
            m.max_line_chars
        };
        let fg = if m.line_has_color {
            m.line_fg
        } else {
            m.current_fg
        };
        MinimapView { lines: m.lines + wrapped_lines(fg, chars, m.cols as u32), ..reset }
    }
}

/// Setting the text color; a color other than the default also becomes
/// the line's color.
pub open spec fn set_fg_spec(m: MinimapView, color: Rgb) -> MinimapView {
    if color != default_fg() {
        MinimapView { current_fg: color, line_fg: color, line_has_color: true, ..m }
    } else {
        MinimapView { current_fg: color, ..m }
    }
}

/// The digits of an unsigned number: after a leading `'+'`, if any.
pub open spec fn unsigned_digits(s: Seq<char>) -> Seq<char> {
    if s.len() > 0 && s[0] == '+' {
        s.drop_first()
    } else {
        s
    }
}

/// `str::parse` for an unsigned type whose largest value is `max`: an
/// optional `'+'`, then at least one ASCII digit, with a value that fits.
pub open spec fn parse_unsigned_spec(s: Seq<char>, max: nat) -> Option<nat> {
    let d = unsigned_digits(s);
    if d.len() == 0 || !crate::text::all_digits(d) || crate::text::digits_value(d) > max {
        None
    } else {
        Some(crate::text::digits_value(d))
    }
}

/// A parameter read as [`parse_unsigned_spec`], or 0.
pub open spec fn param_or_zero(s: Seq<char>, max: nat) -> nat {
    match parse_unsigned_spec(s, max) {
        Some(v) => v,
        None => 0,
    }
}

/// Applying the parameters of a color sequence from `i` on: 0 and 39
/// reset the color, 30–37 and 90–97 pick a basic color, `38;5;n` a color of
/// the palette and `38;2;r;g;b` any color; others are skipped.
pub open spec fn sgr_from(m: MinimapView, params: Seq<Seq<char>>, i: int) -> MinimapView
    decreases params.len() - i,
{
    if i < 0 || i >= params.len() {
        m
    } else {
        let n = param_or_zero(params[i], 65535);
        if n == 0 || n == 39 {
            sgr_from(MinimapView { current_fg: default_fg(), ..m }, params, i + 1)
        } else if 30 <= n <= 37 {
            sgr_from(set_fg_spec(m, palette_16(n - 30)), params, i + 1)
        } else if 90 <= n <= 97 {
            sgr_from(set_fg_spec(m, palette_16(n - 90 + 8)), params, i + 1)
        } else if n == 38 && i + 1 < params.len() {
            let mode = param_or_zero(params[i + 1], 65535);
            if mode == 5 && i + 2 < params.len() {
                let idx = param_or_zero(params[i + 2], 255) as u8;
                sgr_from(set_fg_spec(m, palette_256_spec(idx)), params, i + 3)
            } else if mode == 2 && i + 4 < params.len() {
                let c = (
                    param_or_zero(params[i + 2], 255) as u8,
                    param_or_zero(params[i + 3], 255) as u8,
                    param_or_zero(params[i + 4], 255) as u8,
                );
                sgr_from(set_fg_spec(m, c), params, i + 5)
            } else {
                sgr_from(m, params, i + 2)
            }
        } else {
            sgr_from(m, params, i + 1)
        }
    }
}

/// The text of the collected parameters: their bytes read as UTF-8, or
/// nothing when they are not UTF-8.
pub open spec fn params_text(escape: Seq<u8>) -> Seq<char> {
    if valid_utf8(escape) {
        decode_utf8(escape)
    } else {
        Seq::empty()
    }
}

/// A color sequence (`ESC [ ... m`): without parameters it resets the
/// color; otherwise its `;`-separated parameters apply in order.
pub open spec fn parse_sgr_spec(m: MinimapView) -> MinimapView {
    let text = params_text(m.escape);
    if text.len() == 0 {
        MinimapView { current_fg: default_fg(), ..m }
    } else {
        sgr_from(m, split_spec(text, ';'), 0)
    }
}

/// The numbers of a `;`-separated list that read as `u16`.
pub open spec fn mode_numbers(parts: Seq<Seq<char>>) -> Seq<nat>
    decreases parts.len(),
{
    if parts.len() == 0 {
        Seq::empty()
    } else {
        let rest = mode_numbers(parts.drop_last());
        match parse_unsigned_spec(parts.last(), 65535) {
            Some(v) => rest.push(v),
            None => rest,
        }
    }
}

/// A private mode sequence (`ESC [ ? ... h` or `l`) naming mode 1049
/// enters (`h`) or leaves (`l`) the alternate screen.
pub open spec fn parse_mode_set_spec(m: MinimapView, terminator: u8) -> MinimapView {
    let text = params_text(m.escape);
    if text.len() > 0 && text[0] == '?' && mode_numbers(split_spec(text.drop_first(), ';')).contains(
        1049,
    ) {
        MinimapView { in_alt_screen: terminator == 0x68, ..m }
    } else {
        m
    }
}

/// Reading one byte of output.
pub open spec fn feed_byte(m: MinimapView, b: u8) -> MinimapView {
    match m.state {
        ParserState::Normal => if b == 0x1b {
            MinimapView { state: ParserState::EscSeen, ..m }
        } else if b == 0x0a {
            commit_line_spec(m)
        } else if b == 0x0d {
            MinimapView {
                max_line_chars: if m.current_line_chars > m.max_line_chars {
                    m.current_line_chars
                } else {
                    m.max_line_chars
                },
                current_line_chars: 0,
                ..m
            }
        } else if b >= 0x20 && b != 0x7f {
            MinimapView {
                current_line_chars: if m.current_line_chars == u32::MAX {
                    0
                } else {
                    (m.current_line_chars + 1) as u32
                },
                ..m
            }
        } else {
            m
        },
        ParserState::EscSeen => if b == 0x5b {
            MinimapView { escape: Seq::empty(), state: ParserState::CsiParam, ..m }
        } else {
            MinimapView { state: ParserState::Normal, ..m }
        },
        ParserState::CsiParam => if 0x40 <= b && b <= 0x7e {
            let applied = if b == 0x6d {
                parse_sgr_spec(m)
            } else if b == 0x68 || b == 0x6c {
                parse_mode_set_spec(m, b)
            } else {
                m
            };
            MinimapView { state: ParserState::Normal, ..applied }
        } else {
            MinimapView { escape: m.escape.push(b), ..m }
        },
    }
}

/// Reading bytes of output, in order.
pub open spec fn feed_spec(m: MinimapView, bytes: Seq<u8>) -> MinimapView
    decreases bytes.len(),
{
    if bytes.len() == 0 {
        m
    } else {
        feed_byte(feed_spec(m, bytes.drop_last()), bytes.last())
    }
}

/// `std::str::from_utf8`, made owned: the text of bytes that are valid
/// UTF-8, and nothing for others.
#[verifier::external_body]
fn utf8_text(bytes: &[u8]) -> (r: Option<String>)
    ensures
        r is Some <==> valid_utf8(bytes@),
        r matches Some(s) ==> s@ == decode_utf8(bytes@),
{
    match std::str::from_utf8(bytes) {
        Ok(s) => Some(s.to_owned()),
        Err(_) => None,
    }
}

/// `str::parse` for an unsigned type whose largest value is `max`.
pub fn parse_unsigned(s: &[char], max: u32) -> (r: Option<u32>)
    ensures
        match r {
            Some(v) => parse_unsigned_spec(s@, max as nat) == Some(v as nat),
            None => parse_unsigned_spec(s@, max as nat) is None,
        },
{
    let start: usize = if s.len() > 0 && s[0] == '+' {
        1
    } else {
        0
    };
    let ghost d = unsigned_digits(s@);
    assert(d =~= s@.subrange(start as int, s@.len() as int));
    if start >= s.len() {
        return None;
    }
    let mut acc: u64 = 0;
    let mut i: usize = start;
    while i < s.len()
        invariant
            start <= i <= s@.len(),
            s@.len() == s.len(),
            d == s@.subrange(start as int, s@.len() as int),
            d == unsigned_digits(s@),
            d.len() > 0,
            forall|j: int| 0 <= j < i - start ==> crate::text::is_digit(#[trigger] d[j]),
            acc == crate::text::digits_value(d.subrange(0, i - start)),
            acc <= max,
        decreases s@.len() - i,
    {
        let c = s[i];
        if !('0' <= c && c <= '9') {
            assert(d[i - start] == c);
            assert(!crate::text::is_digit(d[i - start]));
            return None;
        }
        let ghost p = d.subrange(0, i - start + 1);
        assert(p.drop_last() == d.subrange(0, i - start));
        assert(p.last() == c);
        let next = acc * 10 + ((c as u64) - 48);
        assert(crate::text::digits_value(p) == next);
        if next > max as u64 {
            let mut j: usize = i + 1;
            while j < s.len()
                invariant
                    start <= i < j <= s@.len(),
                    s@.len() == s.len(),
                    forall|k: int| 0 <= k < j - start ==> crate::text::is_digit(#[trigger] d[k]),
                    d == s@.subrange(start as int, s@.len() as int),
                    d == unsigned_digits(s@),
                    crate::text::digits_value(d.subrange(0, i - start + 1)) > max,
                decreases s@.len() - j,
            {
                if !('0' <= s[j] && s[j] <= '9') {
                    assert(d[j - start] == s@[j as int]);
                    assert(!crate::text::is_digit(d[j - start]));
                    return None;
                }
                j += 1;
            }
            proof {
                crate::text::lemma_digits_value_mono(d, i - start + 1);
            }
            return None;
        }
        acc = next;
        i += 1;
    }
    assert(d.subrange(0, i - start) == d);
    Some(acc as u32)
}

fn param_value(params: &Vec<Vec<char>>, i: usize, max: u32) -> (r: u32)
    requires
        i < params@.len(),
    ensures
        r as nat == param_or_zero(params@[i as int]@, max as nat),
{
    match parse_unsigned(params[i].as_slice(), max) {
        Some(v) => v,
        None => 0,
    }
}

impl Minimap {
    /// An empty minimap for a terminal of `cols` columns.
    pub fn new(cols: u16) -> (r: Self)
        ensures
            r@ == (MinimapView {
                lines: Seq::empty(),
                current_fg: default_fg(),
                line_fg: default_fg(),
                line_has_color: false,
                current_line_chars: 0,
                max_line_chars: 0,
                state: ParserState::Normal,
                escape: Seq::empty(),
                in_alt_screen: false,
                cols,
            }),
            r.width == 40,
            !r.dragging,
    {
        Minimap {
            lines: Vec::new(),
            current_fg: default_fg_exec(),
            line_fg: default_fg_exec(),
            line_has_color: false,
            current_line_chars: 0,
            max_line_chars: 0,
            state: ParserState::Normal,
            escape_buf: Vec::new(),
            in_alt_screen: false,
            cols,
            width: 40,
            dragging: false,
        }
    }

    /// Sets the number of columns that lines wrap at.
    pub fn set_cols(&mut self, cols: u16)
        ensures
            final(self)@ == (MinimapView { cols, ..old(self)@ }),
            final(self).width == old(self).width,
            final(self).dragging == old(self).dragging,
    {
        self.cols = cols;
    }

    fn commit_line(&mut self)
        ensures
            final(self)@ == commit_line_spec(old(self)@),
            final(self).width == old(self).width,
            final(self).dragging == old(self).dragging,
    {
        if self.in_alt_screen {
            self.current_line_chars = 0;
            self.max_line_chars = 0;
            self.line_has_color = false;
            return;
        }
        let chars = if self.current_line_chars > self.max_line_chars {
            self.current_line_chars
        } else {
            self.max_line_chars
        };
        let fg = if self.line_has_color {
            self.line_fg
        } else {
            self.current_fg
        };
        push_wrapped(&mut self.lines, fg, chars, self.cols as u32);
        self.current_line_chars = 0;
        self.max_line_chars = 0;
        self.line_has_color = false;
    }

    fn set_fg(&mut self, color: Rgb)
        ensures
            final(self)@ == set_fg_spec(old(self)@, color),
            final(self).width == old(self).width,
            final(self).dragging == old(self).dragging,
    {
        self.current_fg = color;
        let d = default_fg_exec();
        if color.0 != d.0 || color.1 != d.1 || color.2 != d.2 {
            self.line_fg = color;
            self.line_has_color = true;
        }
    }

    fn parse_sgr(&mut self)
        ensures
            final(self)@ == parse_sgr_spec(old(self)@),
            final(self).width == old(self).width,
            final(self).dragging == old(self).dragging,
    {
        let text = match utf8_text(self.escape_buf.as_slice()) {
            Some(s) => s,
            None => String::new(),
        };
        let tv = chars_of(text.as_str());
        if tv.len() == 0 {
            self.current_fg = default_fg_exec();
            return;
        }
        let params = split_chars(&tv, ';');
        let ghost ps = split_spec(tv@, ';');
        assert(params@.len() == ps.len());
        let ghost start = self@;
        let mut i: usize = 0;
        while i < params.len()
            invariant
                params@.len() == ps.len(),
                forall|k: int| 0 <= k < ps.len() ==> (#[trigger] params@[k])@ == ps[k],
                sgr_from(start, ps, 0) == sgr_from(self@, ps, i as int),
                self.width == old(self).width,
                self.dragging == old(self).dragging,
            decreases params@.len() - i,
        {
            let n = param_value(&params, i, 65535);
            if n == 0 || n == 39 {
                self.current_fg = default_fg_exec();
            } else if 30 <= n && n <= 37 {
                self.set_fg(palette_16_exec((n - 30) as u8));
            } else if 90 <= n && n <= 97 {
                self.set_fg(palette_16_exec((n - 90 + 8) as u8));
            } else if n == 38 && i + 1 < params.len() {
                let mode = param_value(&params, i + 1, 65535);
                if mode == 5 && i + 2 < params.len() {
                    let idx = param_value(&params, i + 2, 255);
                    self.set_fg(palette_256(idx as u8));
                    i += 2;
                } else if mode == 2 && params.len() - i > 4 {
                    let r = param_value(&params, i + 2, 255);
                    let g = param_value(&params, i + 3, 255);
                    let b = param_value(&params, i + 4, 255);
                    self.set_fg((r as u8, g as u8, b as u8));
                    i += 4;
                } else {
                    i += 1;
                }
            }
            i += 1;
        }
    }

    fn parse_mode_set(&mut self, terminator: u8)
        ensures
            final(self)@ == parse_mode_set_spec(old(self)@, terminator),
            final(self).width == old(self).width,
            final(self).dragging == old(self).dragging,
    {
        let text = match utf8_text(self.escape_buf.as_slice()) {
            Some(s) => s,
            None => String::new(),
        };
        let tv = chars_of(text.as_str());
        if tv.len() > 0 && tv[0] == '?' {
            let rest = crate::text::chars_range(&tv, 1, tv.len());
            assert(rest@ =~= tv@.drop_first());
            let parts = split_chars(&rest, ';');
            let ghost ps = split_spec(rest@, ';');
            let mut found = false;
            let mut i: usize = 0;
            while i < parts.len()
                invariant
                    parts@.len() == ps.len(),
                    i <= parts@.len(),
                    forall|k: int| 0 <= k < ps.len() ==> (#[trigger] parts@[k])@ == ps[k],
                    found == mode_numbers(ps.subrange(0, i as int)).contains(1049),
                decreases parts@.len() - i,
            {
                let ghost q = ps.subrange(0, i as int + 1);
                assert(q.drop_last() =~= ps.subrange(0, i as int));
                assert(q.last() == ps[i as int]);
                match parse_unsigned(parts[i].as_slice(), 65535) {
                    Some(v) => {
                        proof {
                            let before = mode_numbers(ps.subrange(0, i as int));
                            assert(mode_numbers(q) == before.push(v as nat));
                            if v == 1049 {
                                assert(mode_numbers(q)[before.len() as int] == 1049);
                            } else if found {
                                let k = choose|k: int| 0 <= k < before.len() && before[k] == 1049;
                                assert(mode_numbers(q)[k] == 1049);
                            } else {
                                assert forall|k: int| 0 <= k < mode_numbers(q).len() implies mode_numbers(
                                    q,
                                )[k] != 1049 by {
                                    if k < before.len() {
                                        assert(mode_numbers(q)[k] == before[k]);
                                    }
                                }
                            }
                        }
                        found = found || v == 1049;
                    },
                    None => {},
                }
                i += 1;
            }
            assert(ps.subrange(0, ps.len() as int) == ps);
            if found {
                self.in_alt_screen = terminator == 0x68;
            }
        }
    }

    /// Reads bytes of the shell's output, as [`feed_spec`].
    pub fn feed(&mut self, bytes: &[u8])
        ensures
            final(self)@ == feed_spec(old(self)@, bytes@),
            final(self).width == old(self).width,
            final(self).dragging == old(self).dragging,
    {
        let mut k: usize = 0;
        while k < bytes.len()
            invariant
                k <= bytes@.len(),
                bytes@.len() == bytes.len(),
                self@ == feed_spec(old(self)@, bytes@.subrange(0, k as int)),
                self.width == old(self).width,
                self.dragging == old(self).dragging,
            decreases bytes@.len() - k,
        {
            let ghost p = bytes@.subrange(0, k as int + 1);
            assert(p.drop_last() =~= bytes@.subrange(0, k as int));
            assert(p.last() == bytes@[k as int]);
            let b = bytes[k];
            match self.state {
                ParserState::Normal => {
                    if b == 0x1b {
                        self.state = ParserState::EscSeen;
                    } else if b == 0x0a {
                        self.commit_line();
                    } else if b == 0x0d {
                        if self.current_line_chars > self.max_line_chars {
                            self.max_line_chars = self.current_line_chars;
                        }
                        self.current_line_chars = 0;
                    } else if b >= 0x20 && b != 0x7f {
                        self.current_line_chars = if self.current_line_chars == u32::MAX {
                            0
                        } else {
                            self.current_line_chars + 1
                        };
                    }
                },
                ParserState::EscSeen => {
                    if b == 0x5b {
                        self.escape_buf.clear();
                        self.state = ParserState::CsiParam;
                    } else {
                        self.state = ParserState::Normal;
                    }
                },
                ParserState::CsiParam => {
                    if b >= 0x40 && b <= 0x7e {
                        if b == 0x6d {
                            self.parse_sgr();
                        } else if b == 0x68 || b == 0x6c {
                            self.parse_mode_set(b);
                        }
                        self.state = ParserState::Normal;
                    } else {
                        self.escape_buf.push(b);
                    }
                },
            }
            k += 1;
        }
        assert(bytes@.subrange(0, bytes@.len() as int) == bytes@);
    }
}


/// The minimap lines of a text, one output line per piece between
/// newlines, each wrapped at `cols` columns in the default color.
pub open spec fn text_lines(parts: Seq<Seq<char>>, cols: u32) -> Seq<LineInfo>
    decreases parts.len(),
{
    if parts.len() == 0 {
        Seq::empty()
    } else {
        text_lines(parts.drop_last(), cols) + wrapped_lines(default_fg(), parts.last().len() as u32, cols)
    }
}

impl Minimap {
    /// Starts over from the text of the terminal: the parser is reset and
    /// each line of `text` becomes minimap lines; with no columns there
    /// are none.
    pub fn rebuild_from_text(&mut self, text: &str)
        ensures
            final(self)@ == (MinimapView {
                lines: if old(self).cols == 0 {
                    Seq::empty()
                } else {
                    text_lines(split_spec(text@, '\n'), old(self).cols as u32)
                },
                current_fg: default_fg(),
                line_fg: default_fg(),
                line_has_color: false,
                current_line_chars: 0,
                max_line_chars: 0,
                state: ParserState::Normal,
                escape: Seq::empty(),
                ..old(self)@
            }),
            final(self).width == old(self).width,
            final(self).dragging == old(self).dragging,
    {
        self.lines.clear();
        self.current_line_chars = 0;
        self.max_line_chars = 0;
        self.current_fg = default_fg_exec();
        self.line_fg = default_fg_exec();
        self.line_has_color = false;
        self.state = ParserState::Normal;
        self.escape_buf.clear();
        let cols = self.cols as u32;
        if cols == 0 {
            return;
        }
        let v = chars_of(text);
        let parts = split_chars(&v, '\n');
        let ghost ps = split_spec(v@, '\n');
        let mut i: usize = 0;
        while i < parts.len()
            invariant
                i <= parts@.len(),
                parts@.len() == ps.len(),
                forall|k: int| 0 <= k < ps.len() ==> (#[trigger] parts@[k])@ == ps[k],
                cols == self.cols as u32,
                cols > 0,
                self.lines@ == text_lines(ps.subrange(0, i as int), cols),
                self.width == old(self).width,
                self.dragging == old(self).dragging,
                self.current_line_chars == 0,
                self.max_line_chars == 0,
                self.current_fg == default_fg(),
                self.line_fg == default_fg(),
                !self.line_has_color,
                self.state == ParserState::Normal,
                self.escape_buf@ == Seq::<u8>::empty(),
                self.in_alt_screen == old(self).in_alt_screen,
                self.cols == old(self).cols,
            decreases parts@.len() - i,
        {
            let ghost q = ps.subrange(0, i as int + 1);
            assert(q.drop_last() =~= ps.subrange(0, i as int));
            assert(q.last() == ps[i as int]);
            let n = parts[i].len() as u32;
            push_wrapped(&mut self.lines, default_fg_exec(), n, cols);
            i += 1;
        }
        assert(ps.subrange(0, ps.len() as int) == ps);
    }
}


/// Reading output in pieces is reading it at once: the parser's state
/// carries over between pieces.
pub proof fn lemma_feed_in_pieces(m: MinimapView, a: Seq<u8>, b: Seq<u8>)
    ensures
        feed_spec(m, a + b) == feed_spec(feed_spec(m, a), b),
    decreases b.len(),
{
    if b.len() == 0 {
        assert(a + b =~= a);
    } else {
        lemma_feed_in_pieces(m, a, b.drop_last());
        assert((a + b).drop_last() =~= a + b.drop_last());
        assert((a + b).last() == b.last());
    }
}

proof fn lemma_sgr_keeps_lines(m: MinimapView, params: Seq<Seq<char>>, i: int)
    ensures
        sgr_from(m, params, i).lines == m.lines,
    decreases params.len() - i,
{
    if 0 <= i < params.len() {
        let n = param_or_zero(params[i], 65535);
        if n == 0 || n == 39 {
            lemma_sgr_keeps_lines(MinimapView { current_fg: default_fg(), ..m }, params, i + 1);
        } else if 30 <= n <= 37 {
            lemma_sgr_keeps_lines(set_fg_spec(m, palette_16(n - 30)), params, i + 1);
        } else if 90 <= n <= 97 {
            lemma_sgr_keeps_lines(set_fg_spec(m, palette_16(n - 90 + 8)), params, i + 1);
        } else if n == 38 && i + 1 < params.len() {
            let mode = param_or_zero(params[i + 1], 65535);
            if mode == 5 && i + 2 < params.len() {
                let idx = param_or_zero(params[i + 2], 255) as u8;
                lemma_sgr_keeps_lines(set_fg_spec(m, palette_256_spec(idx)), params, i + 3);
            } else if mode == 2 && i + 4 < params.len() {
                let c = (
                    param_or_zero(params[i + 2], 255) as u8,
                    param_or_zero(params[i + 3], 255) as u8,
                    param_or_zero(params[i + 4], 255) as u8,
                );
                lemma_sgr_keeps_lines(set_fg_spec(m, c), params, i + 5);
            } else {
                lemma_sgr_keeps_lines(m, params, i + 2);
            }
        } else {
            lemma_sgr_keeps_lines(m, params, i + 1);
        }
    }
}

proof fn lemma_feed_byte_appends(m: MinimapView, b: u8)
    ensures
        feed_byte(m, b).lines.len() >= m.lines.len(),
        feed_byte(m, b).lines.subrange(0, m.lines.len() as int) == m.lines,
{
    let q = feed_byte(m, b);
    if m.state == ParserState::CsiParam && 0x40 <= b && b <= 0x7e && b == 0x6d {
        let text = params_text(m.escape);
        if text.len() > 0 {
            lemma_sgr_keeps_lines(m, split_spec(text, ';'), 0);
        }
    }
    assert(q.lines.subrange(0, m.lines.len() as int) =~= m.lines);
}

/// The lines already read are kept: reading more output only appends.
pub proof fn lemma_feed_appends(m: MinimapView, bytes: Seq<u8>)
    ensures
        feed_spec(m, bytes).lines.len() >= m.lines.len(),
        feed_spec(m, bytes).lines.subrange(0, m.lines.len() as int) == m.lines,
    decreases bytes.len(),
{
    if bytes.len() == 0 {
        assert(m.lines.subrange(0, m.lines.len() as int) =~= m.lines);
    } else {
        lemma_feed_appends(m, bytes.drop_last());
        let p = feed_spec(m, bytes.drop_last());
        let q = feed_byte(p, bytes.last());
        lemma_feed_byte_appends(p, bytes.last());
        assert(q.lines.subrange(0, m.lines.len() as int) =~= p.lines.subrange(0, m.lines.len() as int));
    }
}

} // verus!
