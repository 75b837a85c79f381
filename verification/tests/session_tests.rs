use std::collections::VecDeque;

use tai::ai::conversation::{ChatMessage, ToolCall};
use tai::config::TaiConfig;
use tai::router::InputRouter;
use tai::session::{
    accept_version, assemble_workspace, build_session_state, build_skeleton,
    collect_session_panels, default_sidebar_width, default_true, finish_restore, install_tabs,
    is_vt_blank_line, join_path_text, msg_to_session, restore_tab_plan, restored_focus,
    saved_tabs_for, session_dir_in, state_path_in, session_messages_to_api, session_msg_to_api, session_names,
    session_workspaces, split_node_to_session, strip_trailing_prompt, tab_to_session,
    workspace_ssh_info, SessionConversationMessage, SessionNode, SessionPanel, SessionRouter,
    SessionState, SessionTab, SessionToolCall, SessionWorkspace, TabRestore, TabSnapshot,
};
use tai::split::{Panel, PanelRect, SplitDirection, SplitNode};
use tai::workspace::{Workspace, WorkspaceManager};

fn tab(title: &str) -> SessionTab {
    SessionTab {
        cwd: "/tmp".into(),
        title: title.into(),
        scrollback: "line".into(),
        scroll_offset: 3,
        child_exited: false,
        router: SessionRouter {
            unified_history: vec!["ls".into()],
            command_history: vec!["ls".into()],
            auto_execute: false,
            conversation: vec![],
        },
        kind: String::new(),
        ssh_host: String::new(),
        ssh_port: 0,
        ssh_user: String::new(),
    }
}

fn state(workspaces: Vec<SessionWorkspace>, tree: Option<SessionNode>) -> SessionState {
    SessionState {
        version: 1,
        font_size: 14,
        window_width: 800,
        window_height: 600,
        window_x: 0,
        window_y: 0,
        active_workspace: 0,
        sidebar_visible: true,
        sidebar_width_px: 200,
        workspaces,
        focused_panel_id: Some(7),
        next_panel_id: None,
        tree,
        ssh_host: "h".into(),
        ssh_port: 22,
        ssh_user: "u".into(),
        ssh_password: String::new(),
    }
}

fn leaf_tree(id: u32) -> SessionNode {
    SessionNode::Leaf { panel: SessionPanel { id, active_tab: 0, tabs: vec![tab("t")] } }
}

#[test]
fn defaults_of_a_session() {
    assert!(default_true());
    assert_eq!(default_sidebar_width(), 200);
}

#[test]
fn session_paths_join() {
    assert_eq!(join_path_text("/home/u/.config", "tai"), "/home/u/.config/tai");
    assert_eq!(join_path_text("/home/u/.config/", "tai"), "/home/u/.config/tai");
    assert_eq!(join_path_text("", "tai"), "tai");
    assert_eq!(join_path_text("/x", "/abs"), "/abs");
    assert_eq!(session_dir_in(Some("/c".into())), Some("/c/tai".to_string()));
    assert_eq!(session_dir_in(None), None);
    assert_eq!(state_path_in(Some("/c".into()), "session.json"), Some("/c/tai/session.json".to_string()));
    assert_eq!(state_path_in(Some("/c/".into()), "sessions"), Some("/c/tai/sessions".to_string()));
    assert_eq!(state_path_in(None, "config.toml"), None);
}

#[test]
fn only_the_current_version_is_accepted() {
    assert!(accept_version(state(vec![], None)).is_some());
    let mut s = state(vec![], None);
    s.version = 2;
    assert!(accept_version(s).is_none());
}

#[test]
fn blank_lines_hold_only_spaces_and_escapes() {
    assert!(is_vt_blank_line(b""));
    assert!(is_vt_blank_line(b"  \t\r"));
    assert!(is_vt_blank_line(b"\x1b[0m  \x1b[K"));
    assert!(is_vt_blank_line(b"\x1b= "));
    assert!(!is_vt_blank_line(b"\x1b(B "));
    assert!(!is_vt_blank_line(b"\x1b[0m$ "));
    assert!(!is_vt_blank_line(b"x"));
}

#[test]
fn prompt_is_cut_at_last_blank_line() {
    let mut s = String::from("out1\nout2\n\x1b[0m\n$ prompt");
    strip_trailing_prompt(&mut s);
    assert_eq!(s, "out1\nout2\n");
    let mut s = String::from("a\nb\nc");
    strip_trailing_prompt(&mut s);
    assert_eq!(s, "");
    let mut s = String::from(" \nx\ny");
    strip_trailing_prompt(&mut s);
    assert_eq!(s, "");
    let mut s = String::from("x\n \r\ny\n");
    strip_trailing_prompt(&mut s);
    assert_eq!(s, "x\n");
}

#[test]
fn message_forms_round_trip() {
    let msgs = vec![
        ChatMessage::System { content: "sys".into() },
        ChatMessage::User { content: "q".into() },
        ChatMessage::Assistant {
            content: None,
            tool_calls: Some(vec![ToolCall { id: "1".into(), name: "run_command".into(), arguments: "{}".into() }]),
        },
        ChatMessage::Tool { tool_call_id: "1".into(), content: "done".into() },
    ];
    let saved: Vec<SessionConversationMessage> = msgs.iter().filter_map(msg_to_session).collect();
    assert_eq!(saved.len(), 3);
    assert_eq!(saved[0].role, "user");
    assert_eq!(saved[2].tool_call_id.as_deref(), Some("1"));
    let back = session_messages_to_api(&saved);
    assert_eq!(back.len(), 3);
    match &back[1] {
        ChatMessage::Assistant { content: None, tool_calls: Some(c) } => {
            assert_eq!(c[0].name, "run_command")
        }
        _ => panic!("expected the assistant's calls"),
    }
}

#[test]
fn unknown_roles_are_dropped() {
    let m = SessionConversationMessage { role: "system".into(), content: Some("x".into()), tool_call_id: None, tool_calls: None };
    assert!(session_msg_to_api(&m).is_none());
    let m = SessionConversationMessage { role: "tool".into(), content: Some("x".into()), tool_call_id: None, tool_calls: None };
    assert!(session_msg_to_api(&m).is_none());
    let m = SessionConversationMessage {
        role: "assistant".into(),
        content: Some("t".into()),
        tool_call_id: None,
        tool_calls: Some(vec![SessionToolCall { id: "i".into(), name: "n".into(), arguments: "a".into() }]),
    };
    assert!(matches!(session_msg_to_api(&m), Some(ChatMessage::Assistant { .. })));
}

#[test]
fn first_version_sessions_become_one_workspace() {
    let ws = session_workspaces(state(vec![], Some(leaf_tree(7)))).ok().unwrap();
    assert_eq!(ws.len(), 1);
    assert_eq!(ws[0].name, "default");
    assert_eq!(ws[0].focused_panel_id, 7);
    assert_eq!(ws[0].next_panel_id, 1);
    assert_eq!(ws[0].ssh_host, "h");
    assert_eq!(session_workspaces(state(vec![], None)).err(), Some("No workspace data found".to_string()));
}

#[test]
fn skeleton_has_the_saved_shape() {
    let tree = SessionNode::Split {
        direction: "vertical".into(),
        ratio: 3000,
        left: Box::new(leaf_tree(1)),
        right: Box::new(SessionNode::Split {
            direction: "horizontal".into(),
            ratio: 5000,
            left: Box::new(leaf_tree(2)),
            right: Box::new(leaf_tree(3)),
        }),
    };
    let sk: SplitNode<u8> = build_skeleton(&tree, 16);
    assert_eq!(sk.collect_leaves(), vec![1, 2, 3]);
    match &sk {
        SplitNode::Split { direction, ratio, .. } => {
            assert_eq!(*direction, SplitDirection::Vertical);
            assert_eq!(*ratio, 3000);
        }
        _ => panic!("expected a split"),
    }
    assert_eq!(sk.panel_by_id(2).unwrap().tab_bar.height, 30);
    let panels = collect_session_panels(&tree);
    assert_eq!(panels.iter().map(|p| p.id).collect::<Vec<_>>(), vec![1, 2, 3]);
    let (tabs, active) = saved_tabs_for(&panels, 3);
    assert_eq!(tabs.len(), 1);
    assert_eq!(active, 0);
    let (tabs, _) = saved_tabs_for(&panels, 9);
    assert!(tabs.is_empty());
}

#[test]
fn saved_tree_round_trips() {
    let mut node: SplitNode<u8> = SplitNode::Leaf(Panel::new(1, 0, 16));
    node.split_panel(1, SplitDirection::Horizontal, Panel::new(2, 0, 16));
    let mut tabs: VecDeque<Vec<SessionTab>> = VecDeque::new();
    tabs.push_back(vec![tab("a")]);
    tabs.push_back(vec![tab("b"), tab("c")]);
    let saved = split_node_to_session(&node, &mut tabs);
    assert!(tabs.is_empty());
    let panels = collect_session_panels(&saved);
    assert_eq!(panels[0].tabs[0].title, "a");
    assert_eq!(panels[1].tabs.len(), 2);
    let back: SplitNode<u8> = build_skeleton(&saved, 16);
    assert_eq!(back.collect_leaves(), vec![1, 2]);
}

#[test]
fn restored_panels_get_their_tabs() {
    let mut root: SplitNode<u8> = SplitNode::Leaf(Panel::new(4, 0, 16));
    install_tabs(&mut root, 4, vec![1, 2, 3], 9);
    let p = root.panel_by_id(4).unwrap();
    assert_eq!(p.tabs, vec![1, 2, 3]);
    assert_eq!(p.active_tab, 2);
    install_tabs(&mut root, 4, vec![5], 0);
    assert_eq!(root.panel_by_id(4).unwrap().active_tab, 0);
    assert_eq!(restored_focus(&root, 4), 4);
    assert_eq!(restored_focus(&root, 99), 4);
}

#[test]
fn restored_tabs_by_kind() {
    let mut t = tab("x");
    t.kind = "ssh".into();
    t.ssh_host = "example.org".into();
    t.ssh_port = 2222;
    t.ssh_user = "me".into();
    match restore_tab_plan(&t) {
        TabRestore::Disconnected { title, info } => {
            assert_eq!(title, "me@example.org:2222 (disconnected)");
            assert_eq!(info.port, 2222);
        }
        _ => panic!("expected a disconnected tab"),
    }
    let mut t = tab("x");
    t.child_exited = true;
    assert!(matches!(restore_tab_plan(&t), TabRestore::Exited));
    let t = tab("x");
    match restore_tab_plan(&t) {
        TabRestore::Live { cwd } => assert_eq!(cwd.as_deref(), Some("/tmp")),
        _ => panic!("expected a live tab"),
    }
    let mut t = tab("x");
    t.cwd = String::new();
    assert!(matches!(restore_tab_plan(&t), TabRestore::Live { cwd: None }));
}

#[test]
fn workspace_host_needs_host_and_user() {
    assert!(workspace_ssh_info("", 22, "u").is_none());
    assert!(workspace_ssh_info("h", 22, "").is_none());
    assert_eq!(workspace_ssh_info("h", 22, "u").unwrap().host, "h");
}

#[test]
fn restore_fails_without_workspaces() {
    let r: Result<WorkspaceManager<u8>, String> = finish_restore(vec![], 0, true, 200);
    assert_eq!(r.err(), Some("All workspaces failed to restore".to_string()));
}

#[test]
fn restore_assembles_manager() {
    let sw = SessionWorkspace {
        name: "w".into(),
        tree: leaf_tree(5),
        focused_panel_id: 42,
        next_panel_id: 6,
        ssh_host: String::new(),
        ssh_port: 0,
        ssh_user: String::new(),
        ssh_password: String::new(),
    };
    let root: SplitNode<u8> = build_skeleton(&sw.tree, 16);
    let ws = assemble_workspace(&sw, root);
    assert_eq!(ws.focused_panel_id, 5);
    assert!(ws.ssh_info.is_none());
    let wm = finish_restore(vec![ws], 3, false, 1000).ok().unwrap();
    assert_eq!(wm.active, 0);
    assert_eq!(wm.sidebar_width_px, 400);
    assert_eq!(wm.next_workspace_id, 2);
}

#[test]
fn tab_snapshot_is_saved() {
    let mut router = InputRouter::new(&TaiConfig::default(), true);
    router.restore_history(vec!["a".into()], vec!["b".into()], true);
    router.restore_conversation(vec![ChatMessage::User { content: "q".into() }]);
    let snap = TabSnapshot {
        cwd: Some("/w".into()),
        title: "vim".into(),
        restored_scrollback: None,
        buffer_vt: "l1\nl2\n\n$ ".into(),
        scroll_offset: 9,
        child_exited: false,
        ssh_info: None,
    };
    let t = tab_to_session(snap, &router);
    assert_eq!(t.cwd, "/w");
    assert_eq!(t.title, "vim");
    assert_eq!(t.scrollback, "l1\nl2\n");
    assert_eq!(t.router.unified_history, vec!["a".to_string()]);
    assert!(t.router.auto_execute);
    assert_eq!(t.router.conversation.len(), 1);
    assert_eq!(t.kind, "");
    let snap = TabSnapshot {
        cwd: Some("/w".into()),
        title: String::new(),
        restored_scrollback: Some("orig".into()),
        buffer_vt: String::new(),
        scroll_offset: 0,
        child_exited: true,
        ssh_info: None,
    };
    let t = tab_to_session(snap, &router);
    assert_eq!(t.cwd, "");
    assert_eq!(t.scrollback, "orig");
}

#[test]
fn long_scrollback_keeps_last_lines() {
    let router = InputRouter::new(&TaiConfig::default(), false);
    let text: String = (0..5003).map(|i| format!("{i}\n")).collect();
    let snap = TabSnapshot {
        cwd: None,
        title: String::new(),
        restored_scrollback: Some(text),
        buffer_vt: String::new(),
        scroll_offset: 0,
        child_exited: true,
        ssh_info: None,
    };
    let t = tab_to_session(snap, &router);
    assert!(t.scrollback.starts_with("3\n4\n"));
    assert_eq!(t.scrollback.lines().count(), 5000);
}

#[test]
fn session_state_holds_workspaces() {
    let ws: Workspace<u8> = Workspace {
        name: "main".into(),
        root: SplitNode::Leaf(Panel::new(0, 0, 16)),
        focused_panel_id: 0,
        next_panel_id: 1,
        ssh_info: None,
        ssh_password: "p".into(),
    };
    let wm = WorkspaceManager::new(ws);
    let mut q = VecDeque::new();
    q.push_back(vec![tab("z")]);
    let s = build_session_state(&wm, vec![q], 15, 1, 2, 3, 4);
    assert_eq!(s.version, 1);
    assert_eq!(s.font_size, 15);
    assert_eq!(s.workspaces.len(), 1);
    assert_eq!(s.workspaces[0].name, "main");
    assert_eq!(s.workspaces[0].ssh_password, "");
    assert!(s.tree.is_none());
}

#[test]
fn session_names_are_sorted_stems() {
    let names = session_names(vec![
        "work.json".into(),
        "notes.txt".into(),
        "alpha.json".into(),
        ".json".into(),
        "Beta.json".into(),
    ]);
    assert_eq!(names, vec!["".to_string(), "Beta".to_string(), "alpha".to_string(), "work".to_string()]);
}

#[test]
fn panel_rect_default_is_zero() {
    let p: Panel<u8> = Panel::new(1, 0, 10);
    assert_eq!(p.rect, PanelRect { x: 0, y: 0, w: 0, h: 0 });
}
