//! The status bar under the panels: what it says in each input mode, and
//! its colors.
use vstd::prelude::*;

use crate::router::InputMode;
use crate::tab_bar::{rect_view, Rect64};
use crate::text::{dec_spec, push_decimal};

verus! {

/// What the status bar knows: the AI model and whether the AI is available.
pub struct StatusBar {
    pub model: String,
    pub ai_available: bool,
}

/// A color as red, green, blue and opacity.
pub type Rgba = (u8, u8, u8, u8);

/// Where the focused tab is: `Panel i/n | Tab j/m | ` with several panels,
/// `Tab j/m | ` with several tabs, else nothing.
pub open spec fn tab_prefix_spec(panel_info: Option<(usize, usize, usize, usize)>) -> Seq<char> {
    match panel_info {
        Some((pi, pc, ti, tc)) => if pc > 1 {
            "Panel "@ + dec_spec(pi as nat) + "/"@ + dec_spec(pc as nat) + " | Tab "@ + dec_spec(
                ti as nat,
            ) + "/"@ + dec_spec(tc as nat) + " | "@
        } else if tc > 1 {
            "Tab "@ + dec_spec(ti as nat) + "/"@ + dec_spec(tc as nat) + " | "@
        } else {
            Seq::empty()
        },
        None => Seq::empty(),
    }
}

/// The text of the status bar.
pub open spec fn status_text_spec(
    model: Seq<char>,
    ai_available: bool,
    mode: InputMode,
    cwd: Seq<char>,
    auto_execute: bool,
    panel_info: Option<(usize, usize, usize, usize)>,
) -> Seq<char> {
    let prefix = tab_prefix_spec(panel_info);
    match mode {
        InputMode::Shell => if ai_available {
            " "@ + prefix + "shell | model: "@ + model + " | cwd: "@ + cwd + " | Ctrl+/ AI | F1 help"@
                + if auto_execute {
                " | YOLO"@
            } else {
                Seq::empty()
            }
        } else {
            " "@ + prefix + "shell | cwd: "@ + cwd + " | Set OPENAI_API_KEY to enable AI"@
        },
        InputMode::AiPrompt => " "@ + prefix + "AI mode | Enter to submit | Ctrl+J newline | Esc cancel"@,
        InputMode::AiStreaming => " "@ + prefix + "AI responding...  (Esc to cancel)"@,
        InputMode::CommandConfirm => " "@ + prefix
            + "Command confirmation  [Enter] Run | [Esc] Cancel | [e] Edit"@,
    }
}

/// The background and text colors of the bar in each mode.
pub open spec fn status_colors_spec(mode: InputMode) -> (Rgba, Rgba) {
    match mode {
        InputMode::Shell => ((30, 30, 50, 255), (180, 180, 180, 255)),
        InputMode::AiPrompt => ((20, 50, 100, 255), (100, 220, 255, 255)),
        InputMode::AiStreaming => ((50, 30, 80, 255), (200, 150, 255, 255)),
        InputMode::CommandConfirm => ((80, 60, 10, 255), (255, 220, 100, 255)),
    }
}

fn push_tab_prefix(s: &mut String, panel_info: Option<(usize, usize, usize, usize)>)
    ensures
        final(s)@ == old(s)@ + tab_prefix_spec(panel_info),
{
    match panel_info {
        Some((pi, pc, ti, tc)) => {
            if pc > 1 {
                s.push_str("Panel ");
                push_decimal(s, pi as u64);
                s.push_str("/");
                push_decimal(s, pc as u64);
                s.push_str(" | Tab ");
                push_decimal(s, ti as u64);
                s.push_str("/");
                push_decimal(s, tc as u64);
                s.push_str(" | ");
            } else if tc > 1 {
                s.push_str("Tab ");
                push_decimal(s, ti as u64);
                s.push_str("/");
                push_decimal(s, tc as u64);
                s.push_str(" | ");
            }
        },
        None => {},
    }
}

impl StatusBar {
    /// A status bar for the model `model`.
    pub fn new(model: &str, ai_available: bool) -> (r: Self)
        ensures
            r.model@ == model@,
            r.ai_available == ai_available,
    {
        StatusBar { model: model.to_owned(), ai_available }
    }

    /// The text of the bar, as [`status_text_spec`].
    pub fn status_text(
        &self,
        mode: InputMode,
        cwd: &str,
        auto_execute: bool,
        panel_info: Option<(usize, usize, usize, usize)>,
    ) -> (r: String)
        ensures
            r@ == status_text_spec(self.model@, self.ai_available, mode, cwd@, auto_execute, panel_info),
    {
        let mut s = String::new();
        s.push_str(" ");
        push_tab_prefix(&mut s, panel_info);
        match mode {
            InputMode::Shell => {
                if self.ai_available {
                    s.push_str("shell | model: ");
                    s.push_str(self.model.as_str());
                    s.push_str(" | cwd: ");
                    s.push_str(cwd);
                    s.push_str(" | Ctrl+/ AI | F1 help");
                    if auto_execute {
                        s.push_str(" | YOLO");
                    }
                } else {
                    s.push_str("shell | cwd: ");
                    s.push_str(cwd);
                    s.push_str(" | Set OPENAI_API_KEY to enable AI");
                }
            },
            InputMode::AiPrompt => {
                s.push_str("AI mode | Enter to submit | Ctrl+J newline | Esc cancel");
            },
            InputMode::AiStreaming => {
                s.push_str("AI responding...  (Esc to cancel)");
            },
            InputMode::CommandConfirm => {
                s.push_str("Command confirmation  [Enter] Run | [Esc] Cancel | [e] Edit");
            },
        }
        proof {
            let prefix = tab_prefix_spec(panel_info);
            assert(s@ =~= status_text_spec(
                self.model@,
                self.ai_available,
                mode,
                cwd@,
                auto_execute,
                panel_info,
            ));
        }
        s
    }

    /// The colors of the bar, as [`status_colors_spec`].
    pub fn status_colors(mode: InputMode) -> (r: (Rgba, Rgba))
        ensures
            r == status_colors_spec(mode),
    {
        match mode {
            InputMode::Shell => ((30, 30, 50, 255), (180, 180, 180, 255)),
            InputMode::AiPrompt => ((20, 50, 100, 255), (100, 220, 255, 255)),
            InputMode::AiStreaming => ((50, 30, 80, 255), (200, 150, 255, 255)),
            InputMode::CommandConfirm => ((80, 60, 10, 255), (255, 220, 100, 255)),
        }
    }
}

/// Where the status bar is drawn: its area, where its text starts, and,
/// in the AI prompt, a 2-pixel accent line along its top edge.
pub struct StatusBarLayout {
    pub rect: Rect64,
    pub text_pos: (i64, i64),
    pub accent: Option<Rect64>,
}

/// Color of the accent line of the AI prompt.
pub open spec fn accent_color() -> Rgba {
    (80, 160, 255, 255)
}

impl StatusBar {
    /// The bar's geometry on a screen of the given size: a line of text
    /// plus 8 pixels high, at the bottom, right of the sidebar.
    pub fn layout(screen_w: i32, screen_h: i32, font_size: i32, sidebar_w: i32, mode: InputMode) -> (r:
        StatusBarLayout)
        ensures
            rect_view(r.rect) == (
                sidebar_w as int,
                screen_h - (font_size + 8),
                screen_w - sidebar_w,
                font_size + 8,
            ),
            r.text_pos.0 == sidebar_w,
            r.text_pos.1 == screen_h - (font_size + 8) + 4,
            r.accent == if mode == InputMode::AiPrompt {
                Some(
                    (
                        sidebar_w as i64,
                        (screen_h - (font_size + 8)) as i64,
                        (screen_w - sidebar_w) as i64,
                        2i64,
                    ),
                )
            } else {
                None
            },
    {
        let bar_h: i64 = font_size as i64 + 8;
        let bar_y: i64 = screen_h as i64 - bar_h;
        let w: i64 = screen_w as i64 - sidebar_w as i64;
        let accent = match mode {
            InputMode::AiPrompt => Some((sidebar_w as i64, bar_y, w, 2)),
            _ => None,
        };
        StatusBarLayout { rect: (sidebar_w as i64, bar_y, w, bar_h), text_pos: (sidebar_w as i64, bar_y + 4), accent }
    }

    /// The accent line's color.
    pub fn accent_color() -> (r: Rgba)
        ensures
            r == accent_color(),
    {
        (80, 160, 255, 255)
    }
}

} // verus!
