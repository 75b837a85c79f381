//! Selecting text in the terminal with the mouse: the selected cells, and
//! the text they hold.
use vstd::prelude::*;

use crate::text::{chars_of, chars_range, trim_end_len, trim_end_spec};

verus! {

/// A cell of the terminal grid.
#[derive(Clone, Copy, Debug, PartialEq, Eq, Structural)]
pub struct CellPos {
    pub col: i32,
    pub row: i32,
}

/// A selection between two cells; `active` while the mouse drags it.
#[derive(Clone, Copy, Debug, PartialEq, Eq, Structural)]
pub struct TextSelection {
    pub start: Option<CellPos>,
    pub end: Option<CellPos>,
    pub active: bool,
}

/// `s` and `e` in reading order: by row, then by column.
pub open spec fn ordered_spec(s: CellPos, e: CellPos) -> (CellPos, CellPos) {
    if s.row < e.row || (s.row == e.row && s.col <= e.col) {
        (s, e)
    } else {
        (e, s)
    }
}

/// The ends of a selection in reading order are its two ends, the first
/// not after the second by row and then column, whichever end the drag
/// started from.
pub proof fn lemma_ordered_reading_order(s: CellPos, e: CellPos)
    ensures
        (ordered_spec(s, e).0 == s && ordered_spec(s, e).1 == e) || (ordered_spec(s, e).0 == e
            && ordered_spec(s, e).1 == s),
        ordered_spec(s, e).0.row < ordered_spec(s, e).1.row || (ordered_spec(s, e).0.row
            == ordered_spec(s, e).1.row && ordered_spec(s, e).0.col <= ordered_spec(s, e).1.col),
        ordered_spec(s, e) == ordered_spec(e, s),
{
}

/// A selection holds the same cells whichever way it was dragged, and on
/// one row it holds the cells between its two ends, both included.
pub proof fn lemma_selection_symmetric(s: CellPos, e: CellPos, col: int, row: int)
    ensures
        cell_selected_spec(ordered_spec(s, e).0, ordered_spec(s, e).1, col, row)
            == cell_selected_spec(ordered_spec(e, s).0, ordered_spec(e, s).1, col, row),
        s.row == e.row ==> (cell_selected_spec(ordered_spec(s, e).0, ordered_spec(s, e).1, col, row)
            <==> (row == s.row && ((s.col <= col <= e.col) || (e.col <= col <= s.col)))),
{
}

/// The cell lies in the selection from `s` to `e` (in reading order): on
/// the first row from `s` on, on the last up to `e`, and every cell of the
/// rows between.
pub open spec fn cell_selected_spec(s: CellPos, e: CellPos, col: int, row: int) -> bool {
    if row < s.row || row > e.row {
        false
    } else if s.row == e.row {
        s.col <= col <= e.col
    } else if row == s.row {
        col >= s.col
    } else if row == e.row {
        col <= e.col
    } else {
        true
    }
}

impl TextSelection {
    /// No selection.
    pub fn new() -> (r: Self)
        ensures
            r.start is None && r.end is None && !r.active,
    {
        TextSelection { start: None, end: None, active: false }
    }

    /// Starts selecting at a cell.
    pub fn begin(&mut self, col: i32, row: i32)
        ensures
            final(self).start == Some(CellPos { col, row }),
            final(self).end == Some(CellPos { col, row }),
            final(self).active,
    {
        self.start = Some(CellPos { col, row });
        self.end = Some(CellPos { col, row });
        self.active = true;
    }

    /// Moves the end of the selection being dragged.
    pub fn update(&mut self, col: i32, row: i32)
        ensures
            *final(self) == (if old(self).active {
                TextSelection { end: Some(CellPos { col, row }), ..*old(self) }
            } else {
                *old(self)
            }),
    {
        if self.active {
            self.end = Some(CellPos { col, row });
        }
    }

    /// Stops dragging.
    pub fn finish(&mut self)
        ensures
            *final(self) == (TextSelection { active: false, ..*old(self) }),
    {
        self.active = false;
    }

    /// Removes the selection.
    pub fn clear(&mut self)
        ensures
            final(self).start is None && final(self).end is None && !final(self).active,
    {
        self.start = None;
        self.end = None;
        self.active = false;
    }

    /// Whether the selection spans more than one cell.
    pub fn has_selection(&self) -> (r: bool)
        ensures
            r == (match (self.start, self.end) {
                (Some(s), Some(e)) => s != e,
                _ => false,
            }),
    {
        match (self.start, self.end) {
            (Some(s), Some(e)) => s.col != e.col || s.row != e.row,
            _ => false,
        }
    }

    /// The ends of the selection in reading order.
    pub fn ordered(&self) -> (r: Option<(CellPos, CellPos)>)
        ensures
            r == (match (self.start, self.end) {
                (Some(s), Some(e)) => Some(ordered_spec(s, e)),
                _ => None,
            }),
    {
        match (self.start, self.end) {
            (Some(s), Some(e)) => {
                if s.row < e.row || (s.row == e.row && s.col <= e.col) {
                    Some((s, e))
                } else {
                    Some((e, s))
                }
            },
            _ => None,
        }
    }

    /// Whether a cell is selected, as [`cell_selected_spec`].
    pub fn is_cell_selected(&self, col: i32, row: i32) -> (r: bool)
        ensures
            r == (match (self.start, self.end) {
                (Some(s), Some(e)) => cell_selected_spec(
                    ordered_spec(s, e).0,
                    ordered_spec(s, e).1,
                    col as int,
                    row as int,
                ),
                _ => false,
            }),
    {
        let (s, e) = match self.ordered() {
            Some(pair) => pair,
            None => return false,
        };
        if row < s.row || row > e.row {
            return false;
        }
        if s.row == e.row {
            return col >= s.col && col <= e.col;
        }
        if row == s.row {
            return col >= s.col;
        }
        if row == e.row {
            return col <= e.col;
        }
        true
    }
}

/// The highlight of row `row` of a selection from `s` to `e` (in reading
/// order): from the start column on the first row, or the left edge, to the
/// end column on the last row, or the last column, one cell high.
pub open spec fn row_highlight(s: CellPos, e: CellPos, cw: int, ch: int, pad: int, cols: int, row: int) -> (
    int,
    int,
    int,
    int,
) {
    let col_start: int = if row == s.row {
        s.col as int
    } else {
        0
    };
    let col_end: int = if row == e.row {
        e.col as int
    } else {
        cols - 1
    };
    (pad + col_start * cw, pad + row * ch, (col_end - col_start + 1) * cw, ch)
}

/// The highlights of the rows `lo..=hi` that are on screen.
pub open spec fn highlight_rows(
    s: CellPos,
    e: CellPos,
    cw: int,
    ch: int,
    pad: int,
    cols: int,
    rows: int,
    lo: int,
    hi: int,
) -> Seq<(int, int, int, int)>
    decreases hi - lo + 1,
{
    if hi < lo {
        Seq::empty()
    } else {
        highlight_rows(s, e, cw, ch, pad, cols, rows, lo, hi - 1) + if 0 <= hi < rows {
            seq![row_highlight(s, e, cw, ch, pad, cols, hi)]
        } else {
            Seq::empty()
        }
    }
}

impl TextSelection {
    /// The rectangles that highlight the selection on a screen of `cols` by
    /// `rows` cells: one per selected row that is on screen, in order.
    pub fn highlight_rects(&self, cell_width: i32, cell_height: i32, pad: i32, cols: i32, rows: i32) -> (r: Vec<
        crate::tab_bar::Rect64,
    >)
        ensures
            crate::tab_bar::rects_view(r@) == match (self.start, self.end) {
                (Some(a), Some(b)) => {
                    let (s, e) = ordered_spec(a, b);
                    highlight_rows(
                        s,
                        e,
                        cell_width as int,
                        cell_height as int,
                        pad as int,
                        cols as int,
                        rows as int,
                        s.row as int,
                        e.row as int,
                    )
                },
                _ => Seq::empty(),
            },
    {
        let (s, e) = match self.ordered() {
            Some(pair) => pair,
            None => return Vec::new(),
        };
        let mut out: Vec<crate::tab_bar::Rect64> = Vec::new();
        let mut row: i64 = s.row as i64;
        while row <= e.row as i64
            invariant
                s.row <= row <= e.row + 1,
                crate::tab_bar::rects_view(out@) == highlight_rows(
                    s,
                    e,
                    cell_width as int,
                    cell_height as int,
                    pad as int,
                    cols as int,
                    rows as int,
                    s.row as int,
                    row - 1,
                ),
            decreases e.row + 1 - row,
        {
            if row >= 0 && row < rows as i64 {
                let col_start: i64 = if row == s.row as i64 {
                    s.col as i64
                } else {
                    0
                };
                let col_end: i64 = if row == e.row as i64 {
                    e.col as i64
                } else {
                    cols as i64 - 1
                };
                let span: i64 = col_end - col_start + 1;
                let cw = cell_width as i64;
                let ch = cell_height as i64;
                assert(-9223372036854775808 <= span * cw <= 9223372036854775807) by (nonlinear_arith)
                    requires
                        -4294967295 <= span <= 4294967296,
                        -2147483648 <= cw <= 2147483647,
                ;
                assert(-4611686018427387904 <= col_start * cw <= 4611686018427387904) by (nonlinear_arith)
                    requires
                        -2147483648 <= col_start <= 2147483647,
                        -2147483648 <= cw <= 2147483647,
                ;
                assert(-4611686018427387904 <= row * ch <= 4611686018427387904) by (nonlinear_arith)
                    requires
                        0 <= row <= 2147483647,
                        -2147483648 <= ch <= 2147483647,
                ;
                let rect = (pad as i64 + col_start * cw, pad as i64 + row * ch, span * cw, ch);
                let ghost before = out@;
                out.push(rect);
                assert(crate::tab_bar::rects_view(out@) =~= crate::tab_bar::rects_view(before).push(
                    crate::tab_bar::rect_view(rect),
                ));
            } else {
                let ghost before = out@;
            }
            row += 1;
        }
        out
    }
}

/// The cell under the mouse: its offset from the padding divided by the
/// cell size, rounded toward zero, and no less than 0.
pub fn mouse_to_cell(mouse_x: i32, mouse_y: i32, cell_width: i32, cell_height: i32, pad: i32) -> (r: (
    i32,
    i32,
))
    requires
        cell_width > 0,
        cell_height > 0,
        i32::MIN <= mouse_x - pad <= i32::MAX,
        i32::MIN <= mouse_y - pad <= i32::MAX,
    ensures
        r.0 == (if crate::tab_bar::trunc_div(mouse_x - pad, cell_width as int) > 0 {
            crate::tab_bar::trunc_div(mouse_x - pad, cell_width as int)
        } else {
            0
        }),
        r.1 == (if crate::tab_bar::trunc_div(mouse_y - pad, cell_height as int) > 0 {
            crate::tab_bar::trunc_div(mouse_y - pad, cell_height as int)
        } else {
            0
        }),
{
    let col = crate::tab_bar::div_toward_zero((mouse_x - pad) as i64, cell_width as i64);
    let row = crate::tab_bar::div_toward_zero((mouse_y - pad) as i64, cell_height as i64);
    proof {
        assert(-2147483648 <= col <= 2147483647) by (nonlinear_arith)
            requires
                col == crate::tab_bar::trunc_div((mouse_x - pad) as int, cell_width as int),
                i32::MIN <= mouse_x - pad <= i32::MAX,
                cell_width > 0,
        {
        }
        assert(-2147483648 <= row <= 2147483647) by (nonlinear_arith)
            requires
                row == crate::tab_bar::trunc_div((mouse_y - pad) as int, cell_height as int),
                i32::MIN <= mouse_y - pad <= i32::MAX,
                cell_height > 0,
        {
        }
    }
    let c = if col > 0 {
        col as i32
    } else {
        0
    };
    let r = if row > 0 {
        row as i32
    } else {
        0
    };
    (c, r)
}

/// What row `row` contributes to the text of the selection from `s` to `e`
/// (in reading order): its selected cells with trailing white space
/// removed, and a newline unless it is the last row.
pub open spec fn row_piece(s: CellPos, e: CellPos, rows: Seq<Seq<char>>, row: int) -> Seq<char> {
    let text = if row < 0 || row >= rows.len() {
        Seq::empty()
    } else {
        let line = rows[row];
        let len = line.len();
        let last: int = if len > 0 {
            len - 1
        } else {
            0
        };
        let col_start: int = if row == s.row {
            (s.col as usize) as int
        } else {
            0
        };
        let col_end: int = if row == e.row {
            let c = (e.col as usize) as int;
            if c < last {
                c
            } else {
                last
            }
        } else {
            last
        };
        if col_start <= col_end && col_start < len {
            let end = if col_end + 1 < len {
                col_end + 1
            } else {
                len as int
            };
            trim_end_spec(line.subrange(col_start, end))
        } else {
            Seq::empty()
        }
    };
    if row < 0 || row >= rows.len() {
        Seq::empty()
    } else if row < e.row {
        text.push('\n')
    } else {
        text
    }
}

/// The text of rows `from` to `e.row` of the selection.
pub open spec fn selected_text_from(s: CellPos, e: CellPos, rows: Seq<Seq<char>>, from: int) -> Seq<char>
    decreases e.row + 1 - from,
{
    if from > e.row {
        Seq::empty()
    } else {
        row_piece(s, e, rows, from) + selected_text_from(s, e, rows, from + 1)
    }
}

/// The text of a selection of the rows shown: row by row, rows outside the
/// screen skipped.
pub open spec fn selected_text(sel: TextSelection, rows: Seq<Seq<char>>) -> Seq<char> {
    match (sel.start, sel.end) {
        (Some(a), Some(b)) => {
            let (s, e) = ordered_spec(a, b);
            selected_text_from(s, e, rows, s.row as int)
        },
        _ => Seq::empty(),
    }
}

fn row_text(s: CellPos, e: CellPos, line: &str, row: i64) -> (r: Vec<char>)
    ensures
        ({
            let len = line@.len();
            let last: int = if len > 0 {
                len - 1
            } else {
                0
            };
            let col_start: int = if row == s.row {
                (s.col as usize) as int
            } else {
                0
            };
            let col_end: int = if row == e.row {
                let c = (e.col as usize) as int;
                if c < last {
                    c
                } else {
                    last
                }
            } else {
                last
            };
            r@ == if col_start <= col_end && col_start < len {
                let end = if col_end + 1 < len {
                    col_end + 1
                } else {
                    len as int
                };
                trim_end_spec(line@.subrange(col_start, end))
            } else {
                Seq::empty()
            }
        }),
{
    let chars = chars_of(line);
    let len = chars.len();
    let last = if len > 0 {
        len - 1
    } else {
        0
    };
    let col_start: usize = if row == s.row as i64 {
        s.col as usize
    } else {
        0
    };
    let col_end: usize = if row == e.row as i64 {
        let c = e.col as usize;
        if c < last {
            c
        } else {
            last
        }
    } else {
        last
    };
    if col_start <= col_end && col_start < len {
        let end = if col_end < len - 1 {
            col_end + 1
        } else {
            len
        };
        let piece = chars_range(&chars, col_start, end);
        let n = trim_end_len(&piece);
        chars_range(&piece, 0, n)
    } else {
        Vec::new()
    }
}

/// The text of a selection of the rows shown, as [`selected_text`].
pub fn extract_selected_text(sel: &TextSelection, rows: &[String]) -> (r: String)
    ensures
        r@ == selected_text(*sel, crate::text::strings_view(rows@)),
{
    let (s, e) = match sel.ordered() {
        Some(pair) => pair,
        None => return String::new(),
    };
    let ghost rv = crate::text::strings_view(rows@);
    let mut result = String::new();
    let mut row: i64 = s.row as i64;
    while row <= e.row as i64
        invariant
            s.row <= row <= e.row + 1,
            rv == crate::text::strings_view(rows@),
            rows@.len() == rows.len(),
            result@ + selected_text_from(s, e, rv, row as int) == selected_text(*sel, rv),
        decreases e.row + 1 - row,
    {
        let ghost before = result@;
        if row >= 0 && (row as usize) < rows.len() {
            assert(rv[row as int] == rows@[row as int]@);
            let piece = row_text(s, e, rows[row as usize].as_str(), row);
            crate::text::push_chars(&mut result, piece.as_slice());
            if row < e.row as i64 {
                result.push('\n');
            }
        }
        assert(result@ =~= before + row_piece(s, e, rv, row as int));
        row += 1;
    }
    result
}

} // verus!
