use tai::ai::tools::{run_command_tool, RUN_COMMAND_PARAMETERS};
use tai::overlay::CommandOverlay;
use tai::router::InputMode;
use tai::selection::TextSelection;
use tai::split::{workspace_rect, Panel, PanelRect, SplitDirection, SplitNode};
use tai::status_bar::StatusBar;
use tai::tab::{exited_after_read, prompt_timer, replay_for, scrollback_bytes, PromptTimer};
use tai::tab_bar::TabBar;
use tai::terminal::engine::PtyReadResult;
use tai::terminal::launch::{choose_shell, shell_args, shell_env, shell_name, unset_vars, window_pixels};
use tai::terminal::ssh::{next_auth, prompt_answers, AuthMethod, ConnectError};
use tai::workspace::{
    shown_name, workspace_info, MenuClick, SidebarHit, Workspace, WorkspaceManager,
};

fn titles(v: &[&str]) -> Vec<String> {
    v.iter().map(|s| s.to_string()).collect()
}

#[test]
fn tab_bar_layout_places_tabs_labels_and_buttons() {
    let bar = TabBar::new(16);
    let l = bar.layout(&titles(&["one", "a much longer title"]), 0, 16, 100, 50, 1004);
    assert_eq!(l.tab_w, 280);
    assert_eq!(l.label_size, 14);
    assert_eq!((l.tab_y, l.tab_h), (52, 28));
    assert_eq!(l.tabs.len(), 2);
    let first = &l.tabs[0];
    assert_eq!(first.x, 104);
    assert!(first.active);
    assert_eq!(first.label, "one");
    assert_eq!(first.label_pos, (118, 52 + 7));
    assert_eq!(first.close_pos, (104 + 280 - 30 + 4, 59));
    assert_eq!(first.text_color, (220, 225, 240, 255));
    assert!(first.divider.is_none());
    let second = &l.tabs[1];
    assert_eq!(second.x, 384);
    assert_eq!(second.label, "a much longer title");
    assert_eq!(second.divider, Some((384 + 279, 56, 1, 20)));
    assert_eq!(second.close_color, (100, 100, 110, 120));
    assert_eq!(l.borders, vec![(100, 79, 4, 1), (384, 79, 720, 1)]);
    assert_eq!(l.plus_pos, (104 + 560 + 10, 59));
}

#[test]
fn overlay_layout_shows_command_and_explanation() {
    let mut o = CommandOverlay::new();
    assert!(o.layout(800, 600, 16).is_none());
    o.show("ls", "look");
    let l = o.layout(800, 600, 16).unwrap();
    assert_eq!(l.body.0, (20, 600 - 80 - 24 - 10, 760, 80));
    assert_eq!(l.frame.0, (18, 484, 764, 84));
    let texts: Vec<&str> = l.lines.iter().map(|t| t.text.as_str()).collect();
    assert_eq!(texts, vec!["  run_command: ls", "  (look)", "  [Enter] Run  |  [Esc] Cancel  |  [e] Edit"]);
    assert_eq!(l.lines[1].pos, (30, 486 + 8 + 16));
    o.show("pwd", "");
    assert_eq!(o.layout(800, 600, 16).unwrap().lines.len(), 2);
}

#[test]
fn status_bar_sits_at_the_bottom_right_of_the_sidebar() {
    let l = StatusBar::layout(1200, 800, 16, 200, InputMode::AiPrompt);
    assert_eq!(l.rect, (200, 776, 1000, 24));
    assert_eq!(l.text_pos, (200, 780));
    assert_eq!(l.accent, Some((200, 776, 1000, 2)));
    assert!(StatusBar::layout(1200, 800, 16, 0, InputMode::Shell).accent.is_none());
    assert_eq!(StatusBar::accent_color(), (80, 160, 255, 255));
}

#[test]
fn selection_highlights_each_visible_row() {
    let mut sel = TextSelection::new();
    sel.begin(5, -1);
    sel.update(2, 2);
    let rects = sel.highlight_rects(10, 20, 4, 80, 2);
    assert_eq!(rects, vec![(4, 4, 800, 20), (4, 24, 800, 20)]);
    let mut one = TextSelection::new();
    one.begin(3, 0);
    one.update(6, 0);
    assert_eq!(one.highlight_rects(10, 20, 4, 80, 24), vec![(34, 4, 40, 20)]);
    assert!(TextSelection::new().highlight_rects(10, 20, 4, 80, 24).is_empty());
}

#[test]
fn panel_sizes_follow_the_layout() {
    let rect = workspace_rect(1200, 800, 24, 200);
    assert_eq!(rect, PanelRect { x: 200, y: 0, w: 1000, h: 776 });
    let mut root = SplitNode::Leaf(Panel::new(0, (), 16));
    root.split_panel(0, SplitDirection::Horizontal, Panel::new(1, (), 16));
    root.layout(rect);
    assert_eq!(root.panel_sizes(4, 40, 10, 20), vec![(0, 45, 36), (1, 45, 36)]);
}

fn workspace(name: &str) -> Workspace<()> {
    Workspace {
        name: name.into(),
        root: SplitNode::Leaf(Panel::new(0, (), 16)),
        focused_panel_id: 0,
        next_panel_id: 1,
        ssh_info: None,
        ssh_password: String::new(),
    }
}

#[test]
fn sidebar_clicks_and_scrolling() {
    let mut m = WorkspaceManager::new(workspace("a"));
    m.add(workspace("b"));
    m.add(workspace("c"));
    assert_eq!(m.sidebar_hit(790, 800), SidebarHit::NewWorkspace);
    assert_eq!(m.sidebar_hit(60, 800), SidebarHit::Row(1));
    assert_eq!(m.sidebar_hit(500, 800), SidebarHit::Nothing);
    assert_eq!(m.row_under(-10), Some(0));
    m.scroll_sidebar(-1, 100);
    assert_eq!(m.sidebar_scroll, 56);
    m.scroll_sidebar(-5, 100);
    assert_eq!(m.sidebar_scroll, 3 * 56 - 100 + 36);
    m.scroll_sidebar(9, 100);
    assert_eq!(m.sidebar_scroll, 0);
    assert!(m.on_sidebar_edge(196));
    assert!(!m.on_sidebar_edge(205));
    assert!(m.drag_sidebar_to(50));
    assert_eq!(m.sidebar_width_px, 120);
    assert!(!m.drag_sidebar_to(100));
}

#[test]
fn context_menu_renames_and_closes() {
    let mut m = WorkspaceManager::new(workspace("a"));
    m.add(workspace("b"));
    assert_eq!(m.menu_click(0, 0), MenuClick::Passed);
    m.open_context_menu(30, 70);
    assert_eq!(m.context_menu, Some((1, 30, 70)));
    assert_eq!(m.menu_click(300, 300), MenuClick::Passed);
    assert!(m.context_menu.is_none());
    m.open_context_menu(30, 70);
    assert_eq!(m.menu_click(40, 130), MenuClick::Kept);
    assert_eq!(m.menu_click(40, 100), MenuClick::Close(1));
    m.open_context_menu(30, 10);
    assert_eq!(m.menu_click(40, 20), MenuClick::Rename);
    assert_eq!(m.renaming, Some(0));
    assert_eq!(m.rename_buf, "a");
    m.rename_buf = "  renamed ".into();
    m.finish_rename();
    assert_eq!(m.workspaces[0].name, "renamed");
    assert!(m.renaming.is_none());
    m.start_rename(1);
    m.rename_buf = "   ".into();
    m.finish_rename();
    assert_eq!(m.workspaces[1].name, "b");
    m.start_rename(1);
    m.cancel_rename();
    assert_eq!(m.rename_buf, "");
    assert_eq!(WorkspaceManager::<()>::menu_origin(150, 790, 200, 800), (60, 744));
}

#[test]
fn sidebar_rows_and_texts() {
    let mut m = WorkspaceManager::new(workspace("a"));
    m.add(workspace("b"));
    let (rows, scroll) = m.sidebar_rows(800, 16, Some(10));
    assert_eq!(scroll, 0);
    assert_eq!(rows.len(), 2);
    assert!(rows[0].hover && !rows[0].active);
    assert_eq!(rows[0].background, Some((30, 35, 50, 180)));
    assert!(rows[1].active);
    assert_eq!(rows[1].y, 56);
    assert_eq!(rows[1].name_y, 56 + 13);
    assert_eq!(rows[1].info_y, 56 + 13 + 18);
    assert_eq!(workspace_info(1, 3, false), "1 panel \u{00b7} 3 tabs");
    assert_eq!(workspace_info(2, 1, true), "SSH \u{00b7} 2 panels \u{00b7} 1 tab");
    assert_eq!(shown_name("abcdefghijklmnopqrstuvwxyz"), "abcdefghijklmnopqrstuv");
    assert_eq!(shown_name("short"), "short");
}

#[test]
fn tab_reads_restores_and_replays() {
    assert!(!exited_after_read(PtyReadResult::Read));
    assert!(exited_after_read(PtyReadResult::Eof));
    assert!(exited_after_read(PtyReadResult::Error));
    assert_eq!(prompt_timer(true, b"x\x1b[?2004h$ "), PromptTimer::Start);
    assert_eq!(prompt_timer(true, b"more output"), PromptTimer::Stop);
    assert_eq!(prompt_timer(true, b""), PromptTimer::Keep);
    assert_eq!(prompt_timer(false, b"\x1b[?2004h"), PromptTimer::Keep);
    assert_eq!(replay_for(None, b"$ "), None);
    assert_eq!(replay_for(Some(vec![]), b"$ "), None);
    assert_eq!(replay_for(Some(titles(&["a"])), b"$ "), Some(b"\x1b[H\x1b[Ja\r\n\x1b[0m$ ".to_vec()));
    assert_eq!(scrollback_bytes("one\r\ntwo\n"), b"one\r\ntwo\r\n".to_vec());
    assert!(scrollback_bytes("").is_empty());
}

#[test]
fn shells_start_with_their_name_and_environment() {
    assert_eq!(choose_shell(Some("/bin/zsh".into()), Some("/bin/bash".into())), "/bin/zsh");
    assert_eq!(choose_shell(None, Some("/bin/bash".into())), "/bin/bash");
    assert_eq!(choose_shell(None, None), "/bin/sh");
    assert_eq!(shell_name("/usr/local/bin/fish"), "fish");
    assert_eq!(shell_name("sh"), "sh");
    assert_eq!(shell_args("/bin/zsh"), titles(&["zsh", "-o", "HIST_IGNORE_SPACE", "-o", "NO_BANG_HIST"]));
    assert_eq!(shell_args("/bin/bash"), titles(&["bash"]));
    assert_eq!(unset_vars(), titles(&["NO_COLOR", "FORCE_COLOR", "CI"]));
    assert_eq!(shell_env()[0], ("TERM".to_string(), "xterm-256color".to_string()));
    assert_eq!(shell_env().len(), 4);
    assert_eq!(window_pixels(80, 24, 10, 20), (800, 480));
    assert_eq!(window_pixels(1000, 1, 100, 70000), ((100000u32 % 65536) as u16, (70000u32 % 65536) as u16));
}

#[test]
fn logins_try_agent_then_keyboard_then_password() {
    assert_eq!(next_auth(None), Some(AuthMethod::Agent));
    assert_eq!(next_auth(Some(AuthMethod::Agent)), Some(AuthMethod::KeyboardInteractive));
    assert_eq!(next_auth(Some(AuthMethod::KeyboardInteractive)), Some(AuthMethod::Password));
    assert_eq!(next_auth(Some(AuthMethod::Password)), None);
    assert_eq!(prompt_answers(2, "pw"), titles(&["pw", "pw"]));
    assert_eq!(ConnectError::NoAddress("box".into()).message(), "No addresses found for box");
    assert_eq!(ConnectError::Auth("denied".into()).message(), "Authentication failed: denied");
    assert_eq!(ConnectError::SocketPair.message(), "socketpair failed");
}

#[test]
fn the_command_tool_is_described_with_a_schema() {
    let t = run_command_tool();
    assert_eq!(t.name, "run_command");
    assert_eq!(t.description, "Execute a shell command in the user's terminal");
    assert_eq!(t.parameters, RUN_COMMAND_PARAMETERS);
    assert!(t.parameters.contains("\"required\":[\"command\"]"));
}
