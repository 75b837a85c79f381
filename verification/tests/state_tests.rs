use tai::split::{Panel, PanelRect, SplitDirection, SplitNode, TabStep};
use tai::tab_bar::{TabBar, TabBarAction};
use tai::terminal::engine::{EngineHandles, Terminal};
use tai::ui::{chosen_session, overlay_keys, session_keys, OverlayKeys, Overlays, SessionList, TabShortcut};
use tai::workspace::{Workspace, WorkspaceManager};

fn engine_handles() -> EngineHandles {
    EngineHandles {
        handle: 11,
        render_state: 12,
        row_iter: 13,
        row_cells: 14,
        key_encoder: 15,
        key_event: 16,
        mouse_encoder: 17,
        mouse_event: 18,
        placement_iter: 19,
    }
}

#[test]
fn a_drain_returns_every_write_since_the_last_one() {
    let mut t = Terminal::from_handles(engine_handles(), 80, 24);
    t.vt_write(b"he");
    t.resize(90, 30, 8, 16);
    t.vt_write(b"");
    t.vt_write(b"llo");
    t.setup_effects(3, 8, 16);
    assert_eq!(t.drain_vt_mirror(), Some(b"hello".to_vec()));
    assert_eq!(t.drain_vt_mirror(), None);
    t.vt_write(b"");
    assert_eq!(t.drain_vt_mirror(), None);
}

#[test]
fn the_size_is_the_last_resize_and_the_handles_never_change() {
    let mut t = Terminal::from_handles(engine_handles(), 80, 24);
    assert_eq!((t.cols(), t.rows()), (80, 24));
    t.resize(100, 40, 9, 18);
    t.vt_write(b"x");
    t.resize(120, 50, 9, 18);
    let _ = t.drain_vt_mirror();
    assert_eq!((t.cols(), t.rows()), (120, 50));
    assert_eq!(t.handles(), engine_handles());
    assert_eq!(t.formatter(), None);
}

#[test]
fn the_title_is_the_one_set_last() {
    let mut t = Terminal::from_handles(engine_handles(), 80, 24);
    assert_eq!(t.title(), "");
    t.set_title("vim".to_string());
    *t.title_slot() = "htop".to_string();
    assert_eq!(t.title(), "htop");
}

fn panel_with(tabs: Vec<u32>, active: usize) -> Panel<u32> {
    let mut p = Panel::new(1, tabs[0], 16);
    for t in &tabs[1..] {
        p.add_tab(*t);
    }
    p.active_tab = active;
    p
}

#[test]
fn tab_shortcuts_close_cycle_and_pick_tabs() {
    let mut p = panel_with(vec![10, 20, 30], 2);
    assert_eq!(p.apply_tab_shortcut(TabShortcut::CloseTab), TabStep::Shown);
    assert_eq!((p.tabs.clone(), p.active_tab), (vec![10, 20], 1));
    assert_eq!(p.apply_tab_shortcut(TabShortcut::NextTab), TabStep::Shown);
    assert_eq!(p.active_tab, 0);
    assert_eq!(p.apply_tab_shortcut(TabShortcut::PrevTab), TabStep::Shown);
    assert_eq!(p.active_tab, 1);
    assert_eq!(p.apply_tab_shortcut(TabShortcut::SelectTab(0)), TabStep::Shown);
    assert_eq!(p.active_tab, 0);
    assert_eq!(p.apply_tab_shortcut(TabShortcut::NewTab), TabStep::NewTabWanted);
    assert_eq!(p.tabs, vec![10, 20]);
    let mut last = panel_with(vec![7], 0);
    assert_eq!(last.apply_tab_shortcut(TabShortcut::CloseTab), TabStep::Emptied);
    assert!(last.tabs.is_empty());
    assert_eq!(last.apply_tab_shortcut(TabShortcut::NextTab), TabStep::Unchanged);
}

#[test]
fn tab_bar_clicks_switch_close_and_add_tabs() {
    let mut p = panel_with(vec![10, 20, 30], 0);
    assert_eq!(p.apply_tab_click(TabBarAction::SwitchTo(2)), TabStep::Shown);
    assert_eq!(p.active_tab, 2);
    assert_eq!(p.apply_tab_click(TabBarAction::Close(0)), TabStep::Shown);
    assert_eq!((p.tabs.clone(), p.active_tab), (vec![20, 30], 1));
    assert_eq!(p.apply_tab_click(TabBarAction::NoAction), TabStep::Unchanged);
    assert_eq!(p.apply_tab_click(TabBarAction::New), TabStep::NewTabWanted);
    p.add_tab(40);
    assert_eq!((p.tabs.clone(), p.active_tab), (vec![20, 30, 40], 2));
}

#[test]
fn splitting_the_focused_panel_gives_the_new_one_half_and_the_focus() {
    let mut root = SplitNode::Leaf(Panel::new(1, 100u32, 16));
    root.layout(PanelRect { x: 0, y: 0, w: 801, h: 601 });
    let mut ws = Workspace {
        name: "w".to_string(),
        root,
        focused_panel_id: 1,
        next_panel_id: 2,
        ssh_info: None,
        ssh_password: String::new(),
    };
    assert_eq!(ws.split_area(SplitDirection::Horizontal), Some((PanelRect { x: 0, y: 0, w: 400, h: 601 }, 30)));
    assert_eq!(ws.split_area(SplitDirection::Vertical), Some((PanelRect { x: 0, y: 0, w: 801, h: 300 }, 30)));
    ws.attach_split(SplitDirection::Horizontal, Panel::new(2, 200, 16));
    assert_eq!(ws.focused_panel_id, 2);
    assert_eq!(ws.root.collect_leaves(), vec![1, 2]);
    ws.focused_panel_id = 9;
    assert_eq!(ws.split_area(SplitDirection::Horizontal), None);
}

#[test]
fn tab_bar_layout_is_refused_where_a_label_would_cut_a_character() {
    let bar = TabBar::new(16);
    let short = vec!["zsh".to_string(), "vim".to_string()];
    assert!(bar.layout_fits_exec(&short, 16, 1200));
    let cut_inside = vec![format!("{}é{}", "a".repeat(25), "a".repeat(10))];
    assert!(!bar.layout_fits_exec(&cut_inside, 16, 1200));
    let cut_before = vec![format!("{}é{}", "a".repeat(26), "a".repeat(10))];
    assert!(bar.layout_fits_exec(&cut_before, 16, 1200));
    let l = bar.layout(&cut_before, 0, 16, 0, 0, 1200);
    assert_eq!(l.tabs[0].label, format!("{}...", "a".repeat(26)));
    assert!(!bar.layout_fits_exec(&short, 16, i32::MIN));
}

fn keys() -> OverlayKeys {
    OverlayKeys {
        f1: false,
        f2: false,
        escape: false,
        enter: false,
        backspace: false,
        up: false,
        down: false,
        s: false,
        d: false,
        wheel: 0,
        typed: Vec::new(),
    }
}

#[test]
fn f1_and_f2_show_one_overlay_at_a_time() {
    let mut o = Overlays::new();
    assert!(!overlay_keys(&mut o, &OverlayKeys { f1: true, ..keys() }));
    assert!(o.show_help && !o.show_sessions && o.help_scroll == 0);
    assert!(!overlay_keys(&mut o, &OverlayKeys { wheel: -2, ..keys() }));
    assert_eq!(o.help_scroll, 48);
    assert!(!overlay_keys(&mut o, &OverlayKeys { wheel: 5, ..keys() }));
    assert_eq!(o.help_scroll, 0);
    assert!(overlay_keys(&mut o, &OverlayKeys { f2: true, ..keys() }));
    assert!(!o.show_help && o.show_sessions);
    assert!(!overlay_keys(&mut o, &OverlayKeys { f2: true, ..keys() }));
    assert!(!o.show_sessions);
    assert!(!overlay_keys(&mut o, &OverlayKeys { f1: true, ..keys() }));
    assert!(!overlay_keys(&mut o, &OverlayKeys { escape: true, ..keys() }));
    assert!(!o.show_help);
}

#[test]
fn session_manager_keys_type_a_name_and_choose_sessions() {
    let mut o = Overlays::new();
    assert!(overlay_keys(&mut o, &OverlayKeys { f2: true, ..keys() }));
    let out = session_keys(&mut o, &OverlayKeys { down: true, ..keys() }, 3);
    assert!(out.save_as.is_none() && !out.delete && !out.load);
    assert_eq!(o.list, SessionList { selected: 1, scroll: 0 });
    let out = session_keys(&mut o, &OverlayKeys { d: true, enter: true, ..keys() }, 3);
    assert!(out.delete && out.load);
    assert_eq!(chosen_session(o.list, 3), Some(1));
    assert_eq!(chosen_session(o.list, 1), Some(0));
    assert_eq!(chosen_session(o.list, 0), None);
    let out = session_keys(&mut o, &OverlayKeys { d: true, ..keys() }, 0);
    assert!(!out.delete);
    session_keys(&mut o, &OverlayKeys { s: true, ..keys() }, 3);
    assert_eq!(o.name_input.as_deref(), Some(""));
    session_keys(&mut o, &OverlayKeys { typed: "work/x".chars().map(|c| c as u32).collect(), ..keys() }, 3);
    session_keys(&mut o, &OverlayKeys { backspace: true, ..keys() }, 3);
    let out = session_keys(&mut o, &OverlayKeys { enter: true, ..keys() }, 3);
    assert_eq!(out.save_as.as_deref(), Some("work"));
    assert_eq!(o.name_input, None);
    session_keys(&mut o, &OverlayKeys { escape: true, ..keys() }, 3);
    assert!(!o.show_sessions);
}

fn named(name: &str) -> Workspace<u32> {
    Workspace {
        name: name.to_string(),
        root: SplitNode::Leaf(Panel::new(1, 1u32, 16)),
        focused_panel_id: 1,
        next_panel_id: 2,
        ssh_info: None,
        ssh_password: String::new(),
    }
}

#[test]
fn restoring_keeps_the_saved_active_workspace_and_width() {
    let m = WorkspaceManager::from_restored(vec![named("a"), named("b"), named("c")], 1, false, 250, 4);
    assert_eq!((m.active, m.sidebar_visible, m.sidebar_width_px), (1, false, 250));
    let names: Vec<&str> = m.workspaces.iter().map(|w| w.name.as_str()).collect();
    assert_eq!(names, vec!["a", "b", "c"]);
}

#[test]
fn dragging_a_separator_puts_it_under_the_pointer() {
    let ratio = tai::ui::drag_ratio(100, 0, 302).unwrap();
    assert_eq!(ratio, 3334);
    let mut root = SplitNode::Leaf(Panel::new(1, 1u32, 16));
    assert!(root.split_panel(1, SplitDirection::Horizontal, Panel::new(2, 2, 16)));
    assert!(root.update_ratio_at(&[], ratio));
    root.layout(PanelRect { x: 0, y: 0, w: 302, h: 100 });
    assert_eq!(root.panel_by_id(1).unwrap().rect.w, 100);
    assert_eq!(root.panel_by_id(2).unwrap().rect.x, 102);
}
