//! The box that asks the user to confirm a command of the AI.
use vstd::prelude::*;

use crate::status_bar::Rgba;
use crate::tab_bar::{rect_view, Rect64};

verus! {

/// A line of text to draw: the text, where it starts, and its color.
pub struct TextLine {
    pub text: String,
    pub pos: (i64, i64),
    pub color: Rgba,
}

/// The plain content of a [`TextLine`].
pub struct TextLineView {
    pub text: Seq<char>,
    pub pos: (int, int),
    pub color: Rgba,
}

impl View for TextLine {
    type V = TextLineView;

    open spec fn view(&self) -> TextLineView {
        TextLineView { text: self.text@, pos: (self.pos.0 as int, self.pos.1 as int), color: self.color }
    }
}

/// Views of lines of text.
pub open spec fn lines_view(v: Seq<TextLine>) -> Seq<TextLineView> {
    v.map_values(|l: TextLine| l@)
}

/// How the confirmation is drawn: a frame around the box, the box, its
/// outline, each with its color, and the lines of text.
pub struct OverlayLayout {
    pub frame: (Rect64, Rgba),
    pub body: (Rect64, Rgba),
    pub outline: (Rect64, Rgba),
    pub lines: Vec<TextLine>,
}

/// The hint under the command.
pub const CONFIRM_HINT: &'static str = "  [Enter] Run  |  [Esc] Cancel  |  [e] Edit";

/// The lines of the confirmation in a box at `(bx, by)` of height `bh`:
/// the command, the explanation in parentheses when there is one, and the
/// hint at the bottom.
pub open spec fn overlay_lines_spec(command: Seq<char>, explanation: Seq<char>, bx: int, by: int, bh: int, font_size: int) -> Seq<
    TextLineView,
> {
    seq![TextLineView { text: "  run_command: "@ + command, pos: (bx + 10, by + 8), color: (0, 200, 200, 255) }]
        + (if explanation.len() > 0 {
        seq![
            TextLineView {
                text: "  ("@ + explanation + ")"@,
                pos: (bx + 10, by + 8 + font_size),
                color: (180, 180, 180, 255),
            },
        ]
    } else {
        Seq::empty()
    }) + seq![
        TextLineView {
            text: CONFIRM_HINT@,
            pos: (bx + 10, by + bh - font_size - 8),
            color: (200, 200, 0, 255),
        },
    ]
}

/// Whether the confirmation shows, and the command and explanation it shows.
pub struct CommandOverlay {
    visible: bool,
    command: String,
    explanation: String,
}

impl CommandOverlay {
    /// Whether it shows.
    pub closed spec fn shown(&self) -> bool {
        self.visible
    }

    /// The command shown.
    pub closed spec fn command_view(&self) -> Seq<char> {
        self.command@
    }

    /// The explanation shown.
    pub closed spec fn explanation_view(&self) -> Seq<char> {
        self.explanation@
    }

    /// Hidden, showing nothing.
    pub fn new() -> (r: Self)
        ensures
            !r.shown(),
            r.command_view() == Seq::<char>::empty(),
            r.explanation_view() == Seq::<char>::empty(),
    {
        CommandOverlay { visible: false, command: String::new(), explanation: String::new() }
    }

    /// Shows a command and why the AI wants to run it.
    pub fn show(&mut self, command: &str, explanation: &str)
        ensures
            final(self).shown(),
            final(self).command_view() == command@,
            final(self).explanation_view() == explanation@,
    {
        self.visible = true;
        self.command = command.to_owned();
        self.explanation = explanation.to_owned();
    }

    /// Hides it and forgets the command.
    pub fn close(&mut self)
        ensures
            !final(self).shown(),
            final(self).command_view() == Seq::<char>::empty(),
            final(self).explanation_view() == Seq::<char>::empty(),
    {
        self.visible = false;
        self.command.clear();
        self.explanation.clear();
    }

    /// Whether it shows.
    pub fn is_visible(&self) -> (r: bool)
        ensures
            r == self.shown(),
    {
        self.visible
    }

    /// The command shown.
    pub fn command(&self) -> (r: &str)
        ensures
            r@ == self.command_view(),
    {
        self.command.as_str()
    }

    /// The explanation shown.
    pub fn explanation(&self) -> (r: &str)
        ensures
            r@ == self.explanation_view(),
    {
        self.explanation.as_str()
    }
}

impl CommandOverlay {
    /// How the confirmation is drawn on a screen of the given size, when it
    /// shows: a box five lines high, 20 pixels from the sides, just above
    /// the status bar.
    pub fn layout(&self, screen_w: i32, screen_h: i32, font_size: i32) -> (r: Option<OverlayLayout>)
        ensures
            !self.shown() ==> r is None,
            self.shown() ==> (r matches Some(l) && {
                let bh = font_size * 5;
                let by = screen_h - bh - (font_size + 8) - 10;
                let bw = screen_w - 40;
                &&& rect_view(l.frame.0) == (18int, by - 2, bw + 4, bh + 4)
                &&& l.frame.1 == (80u8, 60u8, 10u8, 200u8)
                &&& rect_view(l.body.0) == (20int, by, bw, bh)
                &&& l.body.1 == (25u8, 25u8, 35u8, 240u8)
                &&& rect_view(l.outline.0) == (20int, by, bw, bh)
                &&& l.outline.1 == (120u8, 100u8, 50u8, 255u8)
                &&& lines_view(l.lines@) == overlay_lines_spec(
                    self.command_view(),
                    self.explanation_view(),
                    20,
                    by,
                    bh,
                    font_size as int,
                )
            }),
    {
        if !self.visible {
            return None;
        }
        let fs = font_size as i64;
        let bh: i64 = fs * 5;
        let by: i64 = screen_h as i64 - bh - (fs + 8) - 10;
        let bw: i64 = screen_w as i64 - 40;
        let bx: i64 = 20;
        let mut lines: Vec<TextLine> = Vec::new();
        let mut cmd = String::new();
        cmd.push_str("  run_command: ");
        cmd.push_str(self.command.as_str());
        lines.push(TextLine { text: cmd, pos: (bx + 10, by + 8), color: (0, 200, 200, 255) });
        if !self.explanation.as_str().is_empty() {
            let mut e = String::new();
            e.push_str("  (");
            e.push_str(self.explanation.as_str());
            e.push_str(")");
            lines.push(TextLine { text: e, pos: (bx + 10, by + 8 + fs), color: (180, 180, 180, 255) });
        }
        lines.push(
            TextLine {
                text: CONFIRM_HINT.to_owned(),
                pos: (bx + 10, by + bh - fs - 8),
                color: (200, 200, 0, 255),
            },
        );
        assert(lines_view(lines@) =~= overlay_lines_spec(
            self.command@,
            self.explanation@,
            20,
            by as int,
            bh as int,
            font_size as int,
        ));
        Some(
            OverlayLayout {
                frame: ((bx - 2, by - 2, bw + 4, bh + 4), (80, 60, 10, 200)),
                body: ((bx, by, bw, bh), (25, 25, 35, 240)),
                outline: ((bx, by, bw, bh), (120, 100, 50, 255)),
                lines,
            },
        )
    }
}

} // verus!
