use tai::split::{
    alloc_panel_id, panel_term_size, Panel, PanelRect, SplitDirection, SplitNode,
};
use tai::tab_bar::{tab_label, TabBar, TabBarAction};
use tai::workspace::{Workspace, WorkspaceManager};

fn rect(x: i32, y: i32, w: i32, h: i32) -> PanelRect {
    PanelRect { x, y, w, h }
}

fn panel(id: u32) -> Panel<u32> {
    Panel::new(id, id * 10, 16)
}

fn three_panels() -> SplitNode<u32> {
    let mut root = SplitNode::Leaf(panel(1));
    assert!(root.split_panel(1, SplitDirection::Horizontal, panel(2)));
    assert!(root.split_panel(2, SplitDirection::Vertical, panel(3)));
    root.layout(rect(0, 0, 1002, 600));
    root
}

fn rects(n: &SplitNode<u32>) -> Vec<(u32, PanelRect)> {
    n.collect_leaves().iter().map(|id| (*id, n.panel_by_id(*id).unwrap().rect)).collect()
}

#[test]
fn splits_divide_the_area_at_half() {
    let root = three_panels();
    assert_eq!(root.collect_leaves(), vec![1, 2, 3]);
    assert_eq!(root.panel_count(), 3);
    assert_eq!(
        rects(&root),
        vec![(1, rect(0, 0, 500, 600)), (2, rect(502, 0, 500, 299)), (3, rect(502, 301, 500, 299))]
    );
}

#[test]
fn splitting_an_unknown_panel_changes_nothing() {
    let mut root = three_panels();
    assert!(!root.split_panel(9, SplitDirection::Horizontal, panel(4)));
    assert_eq!(root.collect_leaves(), vec![1, 2, 3]);
}

#[test]
fn panels_are_found_by_point_and_id() {
    let mut root = three_panels();
    assert_eq!(root.find_panel_id_at(10, 10), Some(1));
    assert_eq!(root.find_panel_id_at(600, 400), Some(3));
    assert_eq!(root.find_panel_id_at(501, 10), None);
    assert_eq!(root.find_panel_at(600, 10).map(|p| p.id), Some(2));
    assert!(root.contains_panel(3));
    assert!(!root.contains_panel(4));
    assert_eq!(*root.panel_by_id(2).unwrap().active_tab(), 20);
    *root.panel_by_id_mut(2).unwrap().active_tab_mut() = 21;
    assert_eq!(root.panel_by_id(2).unwrap().tabs, vec![21]);
}

#[test]
fn edges_and_spans_of_the_tree() {
    let root = three_panels();
    assert_eq!(root.right_edge(), 1002);
    assert_eq!(root.bottom_edge(), 600);
    assert_eq!(root.horizontal_span(), (0, 1002));
    assert_eq!(root.vertical_span(), (0, 600));
}

#[test]
fn separators_lie_between_the_children() {
    let root = three_panels();
    assert_eq!(root.separators(), vec![rect(500, 0, 2, 600), rect(502, 299, 500, 2)]);
}

#[test]
fn separator_presses_report_the_split_and_its_path() {
    let root = three_panels();
    let h = root.separator_at(501, 100).unwrap();
    assert_eq!((h.direction, h.origin, h.total), (SplitDirection::Horizontal, 0, 1002));
    assert!(h.path.is_empty());
    let v = root.separator_at(700, 300).unwrap();
    assert_eq!((v.direction, v.origin, v.total), (SplitDirection::Vertical, 0, 600));
    assert_eq!(v.path, vec![true]);
    assert!(root.separator_at(100, 100).is_none());
}

#[test]
fn ratio_updates_are_clamped_and_follow_the_path() {
    let mut root = three_panels();
    assert!(root.update_ratio_at(&[true], 20000));
    assert!(!root.update_ratio_at(&[false], 5000));
    assert!(root.update_ratio_at(&[], 0));
    match &root {
        SplitNode::Split { ratio, right, .. } => {
            assert_eq!(*ratio, 1000);
            match &**right {
                SplitNode::Split { ratio, .. } => assert_eq!(*ratio, 9000),
                SplitNode::Leaf(_) => panic!("right child should be a split"),
            }
        }
        SplitNode::Leaf(_) => panic!("root should be a split"),
    }
    root.layout(rect(0, 0, 1002, 600));
    assert_eq!(root.panel_by_id(1).unwrap().rect, rect(0, 0, 100, 600));
}

#[test]
fn narrow_ratio_keeps_the_minimum_width() {
    let mut root = SplitNode::Leaf(panel(1));
    root.split_panel(1, SplitDirection::Horizontal, panel(2));
    root.update_ratio_at(&[], 1000);
    root.layout(rect(0, 0, 302, 100));
    assert_eq!(rects(&root), vec![(1, rect(0, 0, 80, 100)), (2, rect(82, 0, 220, 100))]);
}

#[test]
fn closing_a_panel_promotes_its_sibling() {
    let mut root = three_panels();
    assert!(root.close_panel(2));
    assert_eq!(root.collect_leaves(), vec![1, 3]);
    assert!(!root.close_panel(7));
    assert!(root.close_panel(1));
    assert_eq!(root.collect_leaves(), vec![3]);
    assert!(!root.close_panel(3));
    assert_eq!(root.panel_count(), 1);
}

#[test]
fn terminal_size_fits_the_panel() {
    assert_eq!(panel_term_size(&rect(0, 0, 500, 600), 4, 40, 30, 10, 20), (45, 28));
    assert_eq!(panel_term_size(&rect(0, 0, 10, 10), 4, 40, 30, 10, 20), (1, 1));
    let mut counter = 5;
    assert_eq!(alloc_panel_id(&mut counter), 5);
    assert_eq!(counter, 6);
}

#[test]
fn rect_contains_its_top_left_but_not_its_far_edges() {
    let r = rect(10, 20, 5, 5);
    assert!(r.contains(10, 20));
    assert!(r.contains(14, 24));
    assert!(!r.contains(15, 20));
    assert!(!r.contains(10, 25));
}

fn workspace(name: &str) -> Workspace<u32> {
    Workspace {
        name: name.to_string(),
        root: SplitNode::Leaf(panel(1)),
        focused_panel_id: 1,
        next_panel_id: 2,
        ssh_info: None,
        ssh_password: String::new(),
    }
}

#[test]
fn workspaces_are_named_added_and_cycled() {
    let mut m = WorkspaceManager::new(workspace("main"));
    assert_eq!(m.next_name(), "workspace 1");
    assert_eq!(m.next_name(), "workspace 2");
    m.add(workspace("second"));
    assert_eq!(m.active, 1);
    m.next();
    assert_eq!(m.active, 0);
    m.prev();
    assert_eq!(m.active, 1);
    m.switch_to(5);
    assert_eq!(m.active, 1);
    m.switch_to(0);
    assert_eq!(m.active().name, "main");
    assert_eq!(m.sidebar_width(), 200);
    m.sidebar_visible = false;
    assert_eq!(m.sidebar_width(), 0);
}

#[test]
fn removing_a_workspace_keeps_the_active_one() {
    let mut m = WorkspaceManager::new(workspace("a"));
    m.add(workspace("b"));
    m.add(workspace("c"));
    m.remove(0);
    assert_eq!(m.active, 1);
    assert_eq!(m.active().name, "c");
    m.remove(1);
    assert_eq!(m.active, 0);
    assert_eq!(m.active().name, "b");
}

#[test]
fn restored_manager_limits_index_and_width() {
    let m = WorkspaceManager::from_restored(vec![workspace("a"), workspace("b")], 9, true, 50, 3);
    assert_eq!(m.active, 1);
    assert_eq!(m.sidebar_width_px, 120);
    let wide = WorkspaceManager::from_restored(vec![workspace("a")], 0, false, 900, 1);
    assert_eq!(wide.sidebar_width_px, 400);
    assert_eq!(m.active().total_tab_count(), 1);
    assert_eq!(m.active().panel_count(), 1);
}

#[test]
fn tab_bar_clicks_pick_tabs_close_buttons_and_the_new_button() {
    let bar = TabBar::new(16);
    assert_eq!(bar.height, 30);
    assert_eq!(bar.tab_width(3, 1000), 280);
    assert_eq!(bar.tab_width(20, 1000), 80);
    assert_eq!(bar.handle_click(850, 0, 1000, 3), TabBarAction::New);
    assert_eq!(bar.handle_click(100, 0, 1000, 3), TabBarAction::SwitchTo(0));
    assert_eq!(bar.handle_click(260, 0, 1000, 3), TabBarAction::Close(0));
    assert_eq!(bar.handle_click(300, 0, 1000, 3), TabBarAction::SwitchTo(1));
    assert_eq!(bar.handle_click(900, 0, 1000, 3), TabBarAction::NoAction);
    assert_eq!(bar.handle_click(-5, 0, 1000, 3), TabBarAction::SwitchTo(0));
}

#[test]
fn long_tab_titles_are_cut_with_an_ellipsis() {
    assert_eq!(tab_label("a very long title here", 100, 30, 14), "a ve...");
    assert_eq!(tab_label("ok", 100, 30, 14), "ok");
    assert_eq!(tab_label("abcdef", 40, 30, 14), "...");
}
