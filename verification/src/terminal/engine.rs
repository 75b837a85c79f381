//! What the library keeps of a terminal engine: the handles the engine
//! gave out, the grid size, the shell it talks to, and a copy of every
//! byte written to it since it was last read back.
use vstd::prelude::*;

use crate::terminal::paint::{chars_of_codes, grapheme_chars};
use crate::text::{chars_of, string_of_range, trim_end_len, trim_end_spec};

verus! {

broadcast use vstd::std_specs::vec::group_vec_axioms;

/// How a read from the shell ended.
#[derive(Clone, Copy, Debug, PartialEq, Eq, Structural)]
pub enum PtyReadResult {
    /// Data came, or none was waiting.
    Read,
    /// The shell closed its end.
    Eof,
    /// The read failed.
    Error,
}

/// The handles of an engine's objects, as the engine gave them out.
#[derive(Clone, Copy, Debug, PartialEq, Eq, Structural)]
pub struct EngineHandles {
    pub handle: usize,
    pub render_state: usize,
    pub row_iter: usize,
    pub row_cells: usize,
    pub key_encoder: usize,
    pub key_event: usize,
    pub mouse_encoder: usize,
    pub mouse_event: usize,
    pub placement_iter: usize,
}

/// A terminal: its engine's handles, its size in cells, the shell it
/// writes to, the title the shell set, and the bytes written to the engine
/// since they were last drained.
pub struct Terminal {
    handles: EngineHandles,
    formatter: Option<usize>,
    cols: u16,
    rows: u16,
    pty_fd: i32,
    cell_width: i32,
    cell_height: i32,
    vt_mirror: Vec<u8>,
    last_osc_title: String,
}

/// A terminal as plain values.
pub struct TerminalView {
    pub handles: EngineHandles,
    pub formatter: Option<usize>,
    /// Columns and rows.
    pub size: (u16, u16),
    /// The shell's descriptor and the cell size given with it.
    pub effects: (i32, i32, i32),
    /// The bytes written since the last drain.
    pub mirror: Seq<u8>,
    /// The title the shell set last.
    pub title: Seq<char>,
}

/// A call that changes a terminal.
pub enum TerminalOp {
    SetupEffects(i32, i32, i32),
    VtWrite(Seq<u8>),
    DrainVtMirror,
    Resize(u16, u16, u32, u32),
    SetTitle(Seq<char>),
}

/// The terminal after `op`.
pub open spec fn terminal_step(v: TerminalView, op: TerminalOp) -> TerminalView {
    match op {
        TerminalOp::SetupEffects(fd, w, h) => TerminalView { effects: (fd, w, h), ..v },
        TerminalOp::VtWrite(data) => TerminalView { mirror: v.mirror + data, ..v },
        TerminalOp::DrainVtMirror => TerminalView { mirror: Seq::empty(), ..v },
        TerminalOp::Resize(cols, rows, w, h) => TerminalView {
            size: (cols, rows),
            effects: (v.effects.0, w as i32, h as i32),
            ..v
        },
        TerminalOp::SetTitle(t) => TerminalView { title: t, ..v },
    }
}

/// The terminal after each of `ops` in turn.
pub open spec fn terminal_run(v: TerminalView, ops: Seq<TerminalOp>) -> TerminalView
    decreases ops.len(),
{
    if ops.len() == 0 {
        v
    } else {
        terminal_step(terminal_run(v, ops.drop_last()), ops.last())
    }
}

/// What a drain of `mirror` returns: nothing when it is empty.
pub open spec fn drained(mirror: Seq<u8>) -> Option<Seq<u8>> {
    if mirror.len() == 0 {
        None
    } else {
        Some(mirror)
    }
}

/// The bytes written by `ops`, in order.
pub open spec fn written(ops: Seq<TerminalOp>) -> Seq<u8>
    decreases ops.len(),
{
    if ops.len() == 0 {
        Seq::empty()
    } else {
        written(ops.drop_last()) + match ops.last() {
            TerminalOp::VtWrite(data) => data,
            _ => Seq::empty(),
        }
    }
}

/// The size set by the last resize among `ops`, else `initial`.
pub open spec fn last_resize(initial: (u16, u16), ops: Seq<TerminalOp>) -> (u16, u16)
    decreases ops.len(),
{
    if ops.len() == 0 {
        initial
    } else {
        match ops.last() {
            TerminalOp::Resize(cols, rows, _, _) => (cols, rows),
            _ => last_resize(initial, ops.drop_last()),
        }
    }
}

impl View for Terminal {
    type V = TerminalView;

    closed spec fn view(&self) -> TerminalView {
        TerminalView {
            handles: self.handles,
            formatter: self.formatter,
            size: (self.cols, self.rows),
            effects: (self.pty_fd, self.cell_width, self.cell_height),
            mirror: self.vt_mirror@,
            title: self.last_osc_title@,
        }
    }
}

impl Terminal {
    /// The engine's handles.
    pub open spec fn handles_view(&self) -> EngineHandles {
        self@.handles
    }

    /// Columns and rows.
    pub open spec fn size(&self) -> (u16, u16) {
        self@.size
    }

    /// The shell's descriptor and the cell size given with it.
    pub open spec fn effects(&self) -> (i32, i32, i32) {
        self@.effects
    }

    /// The bytes written since the last drain.
    pub open spec fn mirror(&self) -> Seq<u8> {
        self@.mirror
    }

    /// A terminal of `cols` by `rows` cells over a new engine: no shell
    /// yet, nothing written, no title.
    pub fn from_handles(handles: EngineHandles, cols: u16, rows: u16) -> (r: Self)
        ensures
            r@ == (TerminalView {
                handles,
                formatter: None,
                size: (cols, rows),
                effects: (-1i32, 0i32, 0i32),
                mirror: Seq::empty(),
                title: Seq::empty(),
            }),
    {
        let r = Terminal {
            handles,
            formatter: None,
            cols,
            rows,
            pty_fd: -1,
            cell_width: 0,
            cell_height: 0,
            vt_mirror: Vec::new(),
            last_osc_title: String::new(),
        };
        assert(r@.mirror =~= Seq::<u8>::empty());
        r
    }

    /// Records the shell the engine answers and the cell size.
    pub fn setup_effects(&mut self, pty_fd: i32, cell_width: i32, cell_height: i32)
        ensures
            final(self)@ == terminal_step(
                old(self)@,
                TerminalOp::SetupEffects(pty_fd, cell_width, cell_height),
            ),
    {
        self.pty_fd = pty_fd;
        self.cell_width = cell_width;
        self.cell_height = cell_height;
    }

    /// Records bytes written to the engine.
    pub fn vt_write(&mut self, data: &[u8])
        ensures
            final(self)@ == terminal_step(old(self)@, TerminalOp::VtWrite(data@)),
    {
        let mut i: usize = 0;
        while i < data.len()
            invariant
                i <= data@.len(),
                data@.len() == data.len(),
                self.vt_mirror@ == old(self).vt_mirror@ + data@.subrange(0, i as int),
                self.handles == old(self).handles,
                self.formatter == old(self).formatter,
                self.cols == old(self).cols,
                self.rows == old(self).rows,
                self.pty_fd == old(self).pty_fd,
                self.cell_width == old(self).cell_width,
                self.cell_height == old(self).cell_height,
                self.last_osc_title == old(self).last_osc_title,
            decreases data@.len() - i,
        {
            self.vt_mirror.push(data[i]);
            assert(data@.subrange(0, i as int + 1) =~= data@.subrange(0, i as int).push(
                data@[i as int],
            ));
            i += 1;
        }
        assert(data@.subrange(0, data@.len() as int) == data@);
    }

    /// The bytes written since the last drain, if any, leaving none.
    pub fn drain_vt_mirror(&mut self) -> (r: Option<Vec<u8>>)
        ensures
            match r {
                Some(v) => drained(old(self)@.mirror) == Some(v@),
                None => drained(old(self)@.mirror) is None,
            },
            final(self)@ == terminal_step(old(self)@, TerminalOp::DrainVtMirror),
    {
        if self.vt_mirror.len() == 0 {
            proof {
                assert(self@.mirror =~= Seq::<u8>::empty());
            }
            None
        } else {
            let mut data: Vec<u8> = Vec::new();
            std::mem::swap(&mut data, &mut self.vt_mirror);
            proof {
                assert(self@.mirror =~= Seq::<u8>::empty());
            }
            Some(data)
        }
    }

    /// Records a new size in cells.
    pub fn resize(&mut self, cols: u16, rows: u16, cell_width: u32, cell_height: u32)
        ensures
            final(self)@ == terminal_step(
                old(self)@,
                TerminalOp::Resize(cols, rows, cell_width, cell_height),
            ),
    {
        self.cols = cols;
        self.rows = rows;
        self.cell_width = cell_width as i32;
        self.cell_height = cell_height as i32;
    }

    /// The title the shell set last.
    pub fn title(&self) -> (r: &str)
        ensures
            r@ == self@.title,
    {
        self.last_osc_title.as_str()
    }

    /// Replaces the title.
    pub fn set_title(&mut self, title: String)
        ensures
            final(self)@ == terminal_step(old(self)@, TerminalOp::SetTitle(title@)),
    {
        self.last_osc_title = title;
    }

    /// Where the engine writes the title the shell sets.
    pub fn title_slot(&mut self) -> (r: &mut String)
        ensures
            *r == old(self).last_osc_title_ref(),
            final(self)@ == terminal_step(old(self)@, TerminalOp::SetTitle(final(r)@)),
    {
        &mut self.last_osc_title
    }

    /// The title as held.
    pub closed spec fn last_osc_title_ref(&self) -> String {
        self.last_osc_title
    }

    /// The engine's handles, all at once.
    pub fn handles(&self) -> (r: EngineHandles)
        ensures
            r == self@.handles,
    {
        self.handles
    }

    /// The engine's text formatter, when one was made.
    pub fn formatter(&self) -> (r: Option<usize>)
        ensures
            r == self@.formatter,
    {
        self.formatter
    }

    /// The engine's terminal.
    pub fn handle(&self) -> (r: usize)
        ensures
            r == self.handles_view().handle,
    {
        self.handles.handle
    }

    /// The engine's render state.
    pub fn render_state(&self) -> (r: usize)
        ensures
            r == self.handles_view().render_state,
    {
        self.handles.render_state
    }

    /// The engine's row iterator.
    pub fn row_iter(&self) -> (r: usize)
        ensures
            r == self.handles_view().row_iter,
    {
        self.handles.row_iter
    }

    /// The engine's cells of a row.
    pub fn row_cells(&self) -> (r: usize)
        ensures
            r == self.handles_view().row_cells,
    {
        self.handles.row_cells
    }

    /// The engine's key encoder.
    pub fn key_encoder(&self) -> (r: usize)
        ensures
            r == self.handles_view().key_encoder,
    {
        self.handles.key_encoder
    }

    /// The engine's key event.
    pub fn key_event(&self) -> (r: usize)
        ensures
            r == self.handles_view().key_event,
    {
        self.handles.key_event
    }

    /// The engine's mouse encoder.
    pub fn mouse_encoder(&self) -> (r: usize)
        ensures
            r == self.handles_view().mouse_encoder,
    {
        self.handles.mouse_encoder
    }

    /// The engine's mouse event.
    pub fn mouse_event(&self) -> (r: usize)
        ensures
            r == self.handles_view().mouse_event,
    {
        self.handles.mouse_event
    }

    /// The engine's iterator over image placements.
    pub fn placement_iter(&self) -> (r: usize)
        ensures
            r == self.handles_view().placement_iter,
    {
        self.handles.placement_iter
    }

    /// Columns.
    pub fn cols(&self) -> (r: u16)
        ensures
            r == self.size().0,
    {
        self.cols
    }

    /// Rows.
    pub fn rows(&self) -> (r: u16)
        ensures
            r == self.size().1,
    {
        self.rows
    }

    /// The shell's descriptor.
    pub fn pty_fd(&self) -> (r: i32)
        ensures
            r == self.effects().0,
    {
        self.pty_fd
    }

    /// Width and height of a cell in pixels.
    pub fn cell_size(&self) -> (r: (i32, i32))
        ensures
            r == (self.effects().1, self.effects().2),
    {
        (self.cell_width, self.cell_height)
    }
}

/// Whatever is done to a terminal, its engine's handles stay those the
/// engine gave out.
pub proof fn lemma_handles_fixed(v: TerminalView, ops: Seq<TerminalOp>)
    ensures
        terminal_run(v, ops).handles == v.handles,
        terminal_run(v, ops).formatter == v.formatter,
    decreases ops.len(),
{
    if ops.len() > 0 {
        lemma_handles_fixed(v, ops.drop_last());
    }
}

/// A terminal's size is the one it was last resized to, else the one it
/// was made with.
pub proof fn lemma_size_is_last_resize(v: TerminalView, ops: Seq<TerminalOp>)
    ensures
        terminal_run(v, ops).size == last_resize(v.size, ops),
    decreases ops.len(),
{
    if ops.len() > 0 {
        lemma_size_is_last_resize(v, ops.drop_last());
    }
}

/// With no drain among `ops`, the bytes waiting to be drained are those
/// that waited before, then every byte written, in order.
pub proof fn lemma_mirror_holds_writes(v: TerminalView, ops: Seq<TerminalOp>)
    requires
        forall|i: int| 0 <= i < ops.len() ==> !(#[trigger] ops[i] is DrainVtMirror),
    ensures
        terminal_run(v, ops).mirror == v.mirror + written(ops),
    decreases ops.len(),
{
    if ops.len() > 0 {
        let init = ops.drop_last();
        assert forall|i: int| 0 <= i < init.len() implies !(#[trigger] init[i] is DrainVtMirror) by {
            assert(init[i] == ops[i]);
        }
        lemma_mirror_holds_writes(v, init);
        assert(ops.last() == ops[ops.len() - 1]);
        match ops.last() {
            TerminalOp::VtWrite(data) => {
                assert(v.mirror + written(init) + data =~= v.mirror + (written(init) + data));
            },
            _ => {
                assert(written(init) + Seq::<u8>::empty() =~= written(init));
            },
        }
    }
}

/// Since a terminal was made or last drained, with no drain between, a
/// drain returns every byte written, in order, or nothing when none was;
/// a second drain right after returns nothing.
pub proof fn lemma_drain_returns_writes(v: TerminalView, ops: Seq<TerminalOp>)
    requires
        v.mirror.len() == 0,
        forall|i: int| 0 <= i < ops.len() ==> !(#[trigger] ops[i] is DrainVtMirror),
    ensures
        drained(terminal_run(v, ops).mirror) == drained(written(ops)),
        drained(terminal_step(terminal_run(v, ops), TerminalOp::DrainVtMirror).mirror) is None,
{
    lemma_mirror_holds_writes(v, ops);
    assert(v.mirror + written(ops) =~= written(ops));
}

/// The text of a cell: a space for an empty cell, else the characters of
/// its grapheme.
pub open spec fn cell_text(len: u32, cps: Seq<u32>) -> Seq<char> {
    if len == 0 {
        seq![' ']
    } else {
        grapheme_chars(len, cps)
    }
}

/// The text of the cells of a row, in order.
pub open spec fn cells_text(cells: Seq<(u32, [u32; 16])>) -> Seq<char>
    decreases cells.len(),
{
    if cells.len() == 0 {
        Seq::empty()
    } else {
        cells_text(cells.drop_last()) + cell_text(cells.last().0, cells.last().1@)
    }
}

/// The text of a row of the view, from each cell's grapheme length and
/// code points: the cells' text with trailing white space removed.
pub fn viewport_row_text(cells: &[(u32, [u32; 16])]) -> (r: String)
    ensures
        r@ == trim_end_spec(cells_text(cells@)),
{
    let mut line = String::new();
    let mut i: usize = 0;
    while i < cells.len()
        invariant
            i <= cells@.len(),
            cells@.len() == cells.len(),
            line@ == cells_text(cells@.subrange(0, i as int)),
        decreases cells@.len() - i,
    {
        let ghost q = cells@.subrange(0, i as int + 1);
        assert(q.drop_last() =~= cells@.subrange(0, i as int));
        assert(q.last() == cells@[i as int]);
        let len = cells[i].0;
        if len == 0 {
            line.push(' ');
        } else {
            let n: usize = if len < 16 {
                len as usize
            } else {
                16
            };
            let piece = chars_of_codes(cells[i].1.as_slice(), n);
            line.push_str(piece.as_str());
        }
        assert(line@ =~= cells_text(q));
        i += 1;
    }
    assert(cells@.subrange(0, cells@.len() as int) == cells@);
    let v = chars_of(line.as_str());
    let n = trim_end_len(&v);
    string_of_range(&v, 0, n)
}

} // verus!
