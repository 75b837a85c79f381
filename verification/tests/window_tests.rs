use tai::cli::{initial_window_size, parse_cli, startup_plan, CliError, SessionSource, StartupPlan};
use tai::router::InputMode;
use tai::ui::{
    active_after_remove, committed_name, drag_ratio, focus_after_close, focus_next, focus_prev,
    font_shortcut, font_size_after, help_hint, help_layout, help_scroll_after, is_double_click,
    layout_shortcut, name_char_allowed, next_tab, panel_close_action, prev_tab, prompt_panel,
    push_typed, remote_location, remote_workspace_name, session_dialog, ssh_dialog, tab_keys,
    tab_shortcut, window_title, wrap_prompt, FontChange, LayoutShortcut, PanelCloseAction,
    PromptOp, SessionList, SessionNotice, ShortcutMods, SshForm, TabKeys, TabShortcut,
};
use tai::split::PanelRect;

fn args(v: &[&str]) -> Vec<String> {
    v.iter().map(|s| s.to_string()).collect()
}

#[test]
fn command_line_flags_are_read() {
    let o = parse_cli(&args(&["tai", "--reset", "x", "--export", "a", "--export", "b", "--list-sessions"])).ok().unwrap();
    assert_eq!(o.export.as_deref(), Some("b"));
    assert!(o.reset && o.list);
    assert!(o.import.is_none());
    assert_eq!(parse_cli(&args(&["tai", "--export"])).err(), Some(CliError::ExportNeedsName));
    assert_eq!(parse_cli(&args(&["tai", "--import"])).err(), Some(CliError::ImportNeedsName));
    assert_eq!(CliError::ExportNeedsName.message(), "Error: --export requires a session name.");
    let flag_as_name = parse_cli(&args(&["tai", "--import", "--reset"])).ok().unwrap();
    assert_eq!(flag_as_name.import.as_deref(), Some("--reset"));
    assert!(!flag_as_name.reset);
}

#[test]
fn startup_lists_then_exports_then_runs() {
    let list = parse_cli(&args(&["tai", "--export", "a", "--list-sessions"])).ok().unwrap();
    assert_eq!(startup_plan(&list), StartupPlan::ListSessions);
    let export = parse_cli(&args(&["tai", "--export", "a", "--reset"])).ok().unwrap();
    assert_eq!(startup_plan(&export), StartupPlan::Export("a".into()));
    let reset = parse_cli(&args(&["tai", "--reset", "--import", "x"])).ok().unwrap();
    assert_eq!(startup_plan(&reset), StartupPlan::Run { reset: true, source: SessionSource::Fresh });
    let import = parse_cli(&args(&["tai", "--import", "x"])).ok().unwrap();
    assert_eq!(startup_plan(&import), StartupPlan::Run { reset: false, source: SessionSource::Import("x".into()) });
    let plain = parse_cli(&args(&["tai"])).ok().unwrap();
    assert_eq!(startup_plan(&plain), StartupPlan::Run { reset: false, source: SessionSource::Saved });
    assert_eq!(initial_window_size(0, 900), (1200, 900));
    assert_eq!(initial_window_size(800, -1), (800, 750));
}

#[test]
fn window_title_names_workspace_and_tab() {
    assert_eq!(window_title(1, "main", "shell"), "Terminal AI");
    assert_eq!(window_title(1, "main", "vim"), "Terminal AI - vim");
    assert_eq!(window_title(2, "main", "shell"), "Terminal AI - [main]");
    assert_eq!(window_title(3, "w", "top"), "Terminal AI - [w] top");
}

#[test]
fn font_size_steps_by_two_within_bounds() {
    assert_eq!(font_size_after(16, FontChange::Increase, 14), 18);
    assert_eq!(font_size_after(71, FontChange::Increase, 14), 72);
    assert_eq!(font_size_after(9, FontChange::Decrease, 14), 8);
    assert_eq!(font_size_after(30, FontChange::Reset, 14), 14);
}

#[test]
fn focus_moves_around_the_panels() {
    let leaves = [3u32, 5, 9];
    assert_eq!(focus_next(&leaves, 9), Some(3));
    assert_eq!(focus_next(&leaves, 3), Some(5));
    assert_eq!(focus_prev(&leaves, 3), Some(9));
    assert_eq!(focus_prev(&leaves, 7), None);
    assert_eq!(focus_after_close(&leaves, 5, &[3, 9]), 9);
    assert_eq!(focus_after_close(&leaves, 9, &[3, 5]), 5);
    assert_eq!(focus_after_close(&leaves, 3, &[5, 9]), 5);
}

#[test]
fn tabs_cycle_and_stay_in_range() {
    assert_eq!(next_tab(2, 3), 0);
    assert_eq!(prev_tab(0, 3), 2);
    assert_eq!(prev_tab(2, 3), 1);
    assert_eq!(active_after_remove(2, 2), 1);
    assert_eq!(active_after_remove(0, 2), 0);
    assert_eq!(panel_close_action(2, 1, true), PanelCloseAction::ClosePanel);
    assert_eq!(panel_close_action(1, 2, false), PanelCloseAction::RemoveWorkspace);
    assert_eq!(panel_close_action(1, 1, true), PanelCloseAction::Quit);
    assert_eq!(panel_close_action(1, 1, false), PanelCloseAction::Nothing);
}

fn mods(cmd: bool, shift: bool, ctrl: bool, alt: bool) -> ShortcutMods {
    ShortcutMods { cmd, shift, ctrl, alt }
}

#[test]
fn layout_shortcuts_follow_their_keys() {
    assert_eq!(layout_shortcut(mods(true, false, false, false), &[68], 1), Some(LayoutShortcut::SplitHorizontal));
    assert_eq!(layout_shortcut(mods(true, true, false, false), &[68], 1), Some(LayoutShortcut::SplitVertical));
    assert_eq!(layout_shortcut(mods(true, true, false, false), &[87], 1), Some(LayoutShortcut::ClosePanel));
    assert_eq!(layout_shortcut(mods(true, false, false, true), &[265], 1), Some(LayoutShortcut::FocusPrev));
    assert_eq!(layout_shortcut(mods(true, false, false, false), &[78], 1), Some(LayoutShortcut::NewWorkspace));
    assert_eq!(layout_shortcut(mods(true, false, true, false), &[78], 1), None);
    assert_eq!(layout_shortcut(mods(true, false, true, false), &[50, 49], 3), Some(LayoutShortcut::SwitchWorkspace(0)));
    assert_eq!(layout_shortcut(mods(true, false, true, false), &[52], 3), None);
    assert_eq!(layout_shortcut(mods(true, false, true, false), &[92], 3), None);
    assert_eq!(layout_shortcut(mods(true, false, false, false), &[92], 3), Some(LayoutShortcut::ToggleSidebar));
    assert_eq!(layout_shortcut(mods(false, false, false, false), &[68], 1), None);
}

#[test]
fn tab_and_font_shortcuts_follow_their_keys() {
    let cmd = mods(true, false, false, false);
    assert_eq!(tab_shortcut(cmd, &[84], 2), Some(TabShortcut::NewTab));
    assert_eq!(tab_shortcut(cmd, &[87], 2), Some(TabShortcut::CloseTab));
    assert_eq!(tab_shortcut(mods(true, true, false, false), &[93], 2), Some(TabShortcut::NextTab));
    assert_eq!(tab_shortcut(cmd, &[50], 2), Some(TabShortcut::SelectTab(1)));
    assert_eq!(tab_shortcut(cmd, &[51], 2), None);
    assert_eq!(font_shortcut(true, &[334]), Some(FontChange::Increase));
    assert_eq!(font_shortcut(true, &[45]), Some(FontChange::Decrease));
    assert_eq!(font_shortcut(true, &[48]), Some(FontChange::Reset));
    assert_eq!(font_shortcut(false, &[48]), None);
}

fn keys(ctrl: bool, pressed: &[i32], repeated: &[i32], typed: &[u32]) -> TabKeys {
    TabKeys { ctrl, pressed: pressed.to_vec(), repeated: repeated.to_vec(), typed: typed.to_vec() }
}

#[test]
fn prompt_keys_become_operations_in_order() {
    let ops = tab_keys(InputMode::AiPrompt, &keys(false, &[257, 256], &[259], &[0x68, 0x0A, 0x69]));
    assert_eq!(
        ops,
        vec![PromptOp::Char('h'), PromptOp::Char('i'), PromptOp::Backspace, PromptOp::Submit, PromptOp::Cancel]
    );
    let newline = tab_keys(InputMode::AiPrompt, &keys(true, &[74, 257], &[], &[0x61]));
    assert_eq!(newline, vec![PromptOp::Char('\n')]);
    assert_eq!(tab_keys(InputMode::Shell, &keys(true, &[47], &[], &[])), vec![PromptOp::ToggleAi]);
    assert_eq!(tab_keys(InputMode::Shell, &keys(true, &[89], &[], &[])), vec![PromptOp::ToggleAutoExecute]);
    assert_eq!(tab_keys(InputMode::CommandConfirm, &keys(false, &[256, 69], &[], &[])), vec![PromptOp::CancelCommand]);
    assert!(tab_keys(InputMode::AiStreaming, &keys(false, &[256], &[], &[])).is_empty());
}

#[test]
fn session_list_keeps_the_selection_in_view() {
    let mut l = SessionList::new();
    l.up();
    assert_eq!((l.selected, l.scroll), (0, 0));
    for _ in 0..16 {
        l.down(20);
    }
    assert_eq!((l.selected, l.scroll), (16, 2));
    l.down(20);
    l.down(20);
    l.down(20);
    l.down(20);
    assert_eq!(l.selected, 19);
    l.clamp_to(10);
    assert_eq!((l.selected, l.scroll), (9, 0));
    l.show_index(30);
    assert_eq!((l.selected, l.scroll), (30, 16));
    l.show_index(3);
    assert_eq!((l.selected, l.scroll), (3, 3));
}

#[test]
fn typed_names_follow_their_limits() {
    assert!(name_char_allowed('a', 3, 64, false));
    assert!(!name_char_allowed('/', 3, 64, false));
    assert!(name_char_allowed('/', 3, 32, true));
    assert!(!name_char_allowed('\u{7}', 3, 64, true));
    assert!(!name_char_allowed('a', 64, 64, true));
    let mut name = String::from("ab");
    push_typed(&mut name, &[0x2F, 0x63, 0x0, 0xE9], 3, false);
    assert_eq!(name, "abc");
    let mut wide = String::from("abc");
    push_typed(&mut wide, &[0xE9, 0x64], 5, true);
    assert_eq!(wide, "abcé");
    assert_eq!(committed_name("  new name "), Some("new name".to_string()));
    assert_eq!(committed_name("   "), None);
}

#[test]
fn ssh_form_fields_and_port() {
    let mut f = SshForm::new();
    assert_eq!(f.port, "22");
    f.type_chars(&[0x68, 0x6F, 0x73, 0x74]);
    f.next_field();
    f.backspace();
    f.backspace();
    f.type_chars(&[0x32, 0x32, 0x32, 0x32]);
    f.next_field();
    f.next_field();
    f.type_chars(&[0xE9, 0x78]);
    assert_eq!(f.host, "host");
    assert_eq!(f.port_number(), 2222);
    assert_eq!(f.password, "éx");
    assert_eq!(f.masked_password(), "\u{2022}\u{2022}\u{2022}");
    f.next_field();
    assert_eq!(f.focus, 0);
    f.port = "99999".into();
    assert_eq!(f.port_number(), 22);
    assert_eq!(remote_workspace_name("me", "box"), "me@box");
    assert_eq!(remote_location("me", "box", 22, "~/src"), "ssh://me@box:22 ~/src");
}

#[test]
fn clicks_drags_and_scrolls() {
    assert!(is_double_click(Some(2), 399, 2));
    assert!(!is_double_click(Some(2), 400, 2));
    assert!(!is_double_click(Some(1), 10, 2));
    assert!(!is_double_click(None, 10, 2));
    assert_eq!(drag_ratio(500, 0, 1002), Some(5000));
    assert_eq!(drag_ratio(10, 0, 1002), Some(1000));
    assert_eq!(drag_ratio(1000, 0, 1002), Some(9000));
    assert_eq!(drag_ratio(10, 0, 2), None);
    assert_eq!(help_scroll_after(30, 1), 6);
    assert_eq!(help_scroll_after(10, 1), 0);
    assert_eq!(help_scroll_after(10, -2), 58);
}

#[test]
fn prompt_wraps_at_the_text_area() {
    assert_eq!(wrap_prompt("abcdefg\n\nxy", 3), vec!["abc", "def", "g", "", "xy"]);
    assert_eq!(wrap_prompt("", 5), vec![""]);
    assert_eq!(wrap_prompt("abc", 3), vec!["abc"]);
    let p = prompt_panel(PanelRect { x: 100, y: 0, w: 800, h: 600 }, 10, 20, "hello world");
    assert_eq!((p.w, p.x), (600, 200));
    assert_eq!(p.text_w, 576);
    assert_eq!(p.lines, vec!["hello world"]);
    assert_eq!(p.h, 24 + 20 + 28);
    assert_eq!(p.y, 600 - 72 - 8);
    assert_eq!((p.text_x, p.text_y), (212, 600 - 72 - 8 + 30));
    let narrow = prompt_panel(PanelRect { x: 0, y: 0, w: 200, h: 400 }, 100, 20, "abcdefg");
    assert_eq!(narrow.w, 300);
    assert_eq!(narrow.lines, vec!["ab", "cd", "ef", "g"]);
}

#[test]
fn help_and_dialogs_are_centered() {
    let h = help_layout(&[7, 6, 4], &[4, 2, 4, 3, 4], 1400, 900, 200, 18, 16, 1000);
    assert_eq!(h.line_h, 20);
    assert_eq!(h.content_h, 5 * 20 + 17 * 20 + 40 + 20);
    assert_eq!(h.w, 904);
    assert_eq!(h.x, 200 + (1200 - 904) / 2);
    assert_eq!(h.h, 30 + 500 + 26);
    assert_eq!(h.max_scroll, 0);
    assert_eq!(h.scroll, 0);
    assert_eq!(help_hint(h.max_scroll), "F1 or Esc to close");
    let small = help_layout(&[7, 6, 4], &[4, 2, 4, 3, 4], 800, 400, 0, 18, 16, 7);
    assert_eq!(small.h, 360);
    assert_eq!(small.max_scroll, 500 - (360 - 30 - 26));
    assert_eq!(small.scroll, 7);
    assert_eq!(help_hint(small.max_scroll), "F1 or Esc to close  \u{2022}  Scroll for more");
    let s = session_dialog(3, true, false, 1200, 800, 200, 16);
    assert_eq!((s.w, s.h), (480, 24 + 32 + 3 * 20 + 24 + 20));
    assert_eq!((s.x, s.y), (200 + (1000 - 480) / 2, (800 - s.h) / 2));
    let d = ssh_dialog(false, 400, 800, 0, 16);
    assert_eq!(d.w, 360);
    assert_eq!(d.h, 24 + 32 + (22 * 4 + 16) + 22);
}

#[test]
fn session_notices_read_as_messages() {
    assert_eq!(SessionNotice::Exported("w".into()).text(), "Session 'w' exported");
    assert_eq!(SessionNotice::DeleteFailed("gone".into()).text(), "gone");
    assert_eq!(SessionNotice::Corrupted.text(), "Session corrupted or incompatible");
    assert_eq!(SessionNotice::RestoreFailed("x".into()).text(), "Restore failed: x");
}

#[test]
fn focus_next_then_prev_comes_back() {
    let leaves = [3u32, 5, 9, 12];
    for &x in &leaves {
        let n = focus_next(&leaves, x).unwrap();
        assert_eq!(focus_prev(&leaves, n), Some(x));
    }
}

#[test]
fn wrapped_prompt_loses_no_character() {
    let input = "abcdefgh\nij\n\nklmnopq";
    let pieces = wrap_prompt(input, 3);
    assert!(pieces.iter().all(|p| p.chars().count() <= 3));
    let joined: String = pieces.concat();
    assert_eq!(joined, input.replace('\n', ""));
}

#[test]
fn session_list_moves_keep_the_selection_shown() {
    let mut l = SessionList::new();
    for _ in 0..40 {
        l.down(30);
        assert!(l.scroll <= l.selected && l.selected < l.scroll + 15);
    }
    for _ in 0..40 {
        l.up();
        assert!(l.scroll <= l.selected && l.selected < l.scroll + 15);
    }
    for i in [29usize, 0, 17, 2] {
        l.show_index(i);
        assert!(l.scroll <= l.selected && l.selected < l.scroll + 15);
    }
}
