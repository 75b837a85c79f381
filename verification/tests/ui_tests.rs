use tai::overlay::CommandOverlay;
use tai::router::InputMode;
use tai::selection::{extract_selected_text, mouse_to_cell, CellPos, TextSelection};
use tai::status_bar::StatusBar;
use tai::tab::{
    disconnected_title, injection_bytes, prompt_ready, scroll_delta, ssh_cwd_display, tab_title,
};
use tai::terminal::engine::{EngineHandles, Terminal};
use tai::terminal::input::{raylib_key_unshifted_codepoint, utf8_encode, KEY_A, KEY_NINE};
use tai::terminal::ssh::{connection_key, SshTabInfo};

fn rows(v: &[&str]) -> Vec<String> {
    v.iter().map(|s| s.to_string()).collect()
}

fn selection(s: (i32, i32), e: (i32, i32)) -> TextSelection {
    let mut sel = TextSelection::new();
    sel.begin(s.0, s.1);
    sel.update(e.0, e.1);
    sel.finish();
    sel
}

#[test]
fn selection_follows_the_drag() {
    let mut sel = TextSelection::new();
    assert!(!sel.has_selection());
    sel.begin(2, 1);
    assert!(sel.active);
    assert!(!sel.has_selection());
    sel.update(5, 1);
    assert!(sel.has_selection());
    sel.finish();
    sel.update(9, 9);
    assert_eq!(sel.end, Some(CellPos { col: 5, row: 1 }));
    sel.clear();
    assert_eq!(sel.start, None);
    assert!(!sel.has_selection());
}

#[test]
fn selected_cells_run_in_reading_order() {
    let sel = selection((4, 2), (1, 0));
    assert_eq!(sel.ordered(), Some((CellPos { col: 1, row: 0 }, CellPos { col: 4, row: 2 })));
    assert!(!sel.is_cell_selected(0, 0));
    assert!(sel.is_cell_selected(1, 0));
    assert!(sel.is_cell_selected(100, 0));
    assert!(sel.is_cell_selected(0, 1));
    assert!(sel.is_cell_selected(4, 2));
    assert!(!sel.is_cell_selected(5, 2));
    assert!(!sel.is_cell_selected(0, 3));
}

#[test]
fn selected_text_spans_rows_and_trims_line_ends() {
    let r = rows(&["hello world   ", "second line", "third"]);
    assert_eq!(extract_selected_text(&selection((6, 0), (2, 2)), &r), "world\nsecond line\nthi");
    assert_eq!(extract_selected_text(&selection((0, 1), (5, 1)), &r), "second");
    assert_eq!(extract_selected_text(&TextSelection::new(), &r), "");
    assert_eq!(extract_selected_text(&selection((0, 2), (3, 5)), &r), "third\n");
}

#[test]
fn mouse_positions_map_to_cells() {
    assert_eq!(mouse_to_cell(45, 50, 10, 20, 5), (4, 2));
    assert_eq!(mouse_to_cell(2, 1, 10, 20, 5), (0, 0));
    assert_eq!(mouse_to_cell(-30, 7, 10, 20, 5), (0, 0));
}

#[test]
fn tab_titles_fall_back_in_order() {
    let info = SshTabInfo { host: "box".into(), port: 22, user: "me".into() };
    assert_eq!(tab_title("vim", Some(&info), Some("top".into()), None), "vim");
    assert_eq!(tab_title("", Some(&info), Some("top".into()), None), "me@box");
    assert_eq!(tab_title("", None, Some("top".into()), Some("src".into())), "top");
    assert_eq!(tab_title("", None, None, Some("src".into())), "src");
    assert_eq!(tab_title("", None, None, None), "shell");
}

#[test]
fn prompt_is_ready_when_bracketed_paste_turns_on() {
    assert!(prompt_ready(b"output\x1b[?2004h$ "));
    assert!(!prompt_ready(b"output\x1b[?2004l$ "));
    assert!(!prompt_ready(b"\x1b[?200"));
}

#[test]
fn replay_clears_then_writes_lines_and_prompt() {
    let bytes = injection_bytes(&rows(&["a", "é"]), b"$ ");
    let mut expected = b"\x1b[H\x1b[J".to_vec();
    expected.extend_from_slice("a\r\né\r\n".as_bytes());
    expected.extend_from_slice(b"\x1b[0m$ ");
    assert_eq!(bytes, expected);
}

#[test]
fn scroll_delta_is_relative_to_the_bottom() {
    assert_eq!(scroll_delta(100, 30, 20), -50);
    assert_eq!(scroll_delta(100, 30, 70), 0);
    assert_eq!(scroll_delta(10, 30, 0), 0);
}

#[test]
fn disconnected_titles_are_recognized() {
    assert!(disconnected_title("me@box (disconnected)"));
    assert!(!disconnected_title("me@box"));
    assert!(!disconnected_title("disconnected"));
}

#[test]
fn remote_directory_comes_from_the_title_when_unknown() {
    assert_eq!(ssh_cwd_display(Some("/srv".into()), "x: /tmp"), "/srv");
    assert_eq!(ssh_cwd_display(None, "me@box: ~/code "), "~/code");
    assert_eq!(ssh_cwd_display(None, "me@box: vim"), "~");
    assert_eq!(ssh_cwd_display(None, "no colon"), "~");
}

#[test]
fn connection_key_names_user_host_and_port() {
    assert_eq!(connection_key("box", 2222, "me"), "me@box:2222");
}

#[test]
fn status_text_in_each_mode() {
    let bar = StatusBar::new("gpt-4o", true);
    assert_eq!(
        bar.status_text(InputMode::Shell, "~/x", true, Some((1, 2, 3, 4))),
        " Panel 1/2 | Tab 3/4 | shell | model: gpt-4o | cwd: ~/x | Ctrl+/ AI | F1 help | YOLO"
    );
    assert_eq!(
        bar.status_text(InputMode::AiPrompt, "~", false, Some((1, 1, 2, 3))),
        " Tab 2/3 | AI mode | Enter to submit | Ctrl+J newline | Esc cancel"
    );
    assert_eq!(
        bar.status_text(InputMode::AiStreaming, "~", false, None),
        " AI responding...  (Esc to cancel)"
    );
    let off = StatusBar::new("m", false);
    assert_eq!(
        off.status_text(InputMode::Shell, "/", true, Some((1, 1, 1, 1))),
        " shell | cwd: / | Set OPENAI_API_KEY to enable AI"
    );
    assert_eq!(StatusBar::status_colors(InputMode::CommandConfirm), ((80, 60, 10, 255), (255, 220, 100, 255)));
}

#[test]
fn overlay_shows_and_closes() {
    let mut o = CommandOverlay::new();
    assert!(!o.is_visible());
    o.show("ls -la", "list files");
    assert!(o.is_visible());
    assert_eq!(o.command(), "ls -la");
    assert_eq!(o.explanation(), "list files");
    o.close();
    assert!(!o.is_visible());
}

fn handles() -> EngineHandles {
    EngineHandles {
        handle: 1,
        render_state: 2,
        row_iter: 3,
        row_cells: 4,
        key_encoder: 5,
        key_event: 6,
        mouse_encoder: 7,
        mouse_event: 8,
        placement_iter: 9,
    }
}

#[test]
fn terminal_mirror_drains_what_was_written() {
    let mut t = Terminal::from_handles(handles(), 80, 24);
    assert_eq!(t.drain_vt_mirror(), None);
    t.vt_write(b"ab");
    t.vt_write(b"c");
    assert_eq!(t.drain_vt_mirror(), Some(b"abc".to_vec()));
    assert_eq!(t.drain_vt_mirror(), None);
    t.setup_effects(7, 9, 18);
    t.resize(100, 30, 10, 20);
    assert_eq!((t.cols(), t.rows(), t.pty_fd(), t.cell_size()), (100, 30, 7, (10, 20)));
    assert_eq!((t.handle(), t.placement_iter(), t.key_event()), (1, 9, 6));
}

#[test]
fn keys_type_their_unshifted_characters() {
    assert_eq!(raylib_key_unshifted_codepoint(KEY_A), 'a' as u32);
    assert_eq!(raylib_key_unshifted_codepoint(KEY_NINE), '9' as u32);
    assert_eq!(raylib_key_unshifted_codepoint(32), ' ' as u32);
    assert_eq!(raylib_key_unshifted_codepoint(96), '`' as u32);
    assert_eq!(raylib_key_unshifted_codepoint(256), 0);
}

#[test]
fn code_points_encode_as_utf8() {
    assert_eq!(utf8_encode(0x41), vec![0x41]);
    assert_eq!(utf8_encode(0xE9), vec![0xC3, 0xA9]);
    assert_eq!(utf8_encode(0x1F600), vec![0xF0, 0x9F, 0x98, 0x80]);
    assert_eq!(utf8_encode(0xD800), vec![0xEF, 0xBF, 0xBD]);
    assert_eq!(utf8_encode(0x110000), vec![0xEF, 0xBF, 0xBD]);
}
