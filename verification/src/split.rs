//! Panels arranged in a binary tree of horizontal and vertical splits:
//! layout, lookup, splitting, closing, and hit-testing of separators.
//!
//! A split's ratio is kept in ten-thousandths (`RATIO_ONE` is the whole
//! extent), so that the layout is integer arithmetic.
use vstd::prelude::*;

use crate::tab_bar::{div_toward_zero, trunc_div, TabBar, TabBarAction};
use crate::ui::{active_after_remove, next_tab, prev_tab, TabShortcut};

verus! {

/// Width, in pixels, of the line between two panels.
pub const SEPARATOR_PX: i32 = 2;

/// How far from a separator a press still grabs it.
pub const SEPARATOR_HIT_PX: i32 = 6;

/// Narrowest a panel is laid out.
pub const MIN_PANEL_W: i32 = 80;

/// Lowest a panel is laid out.
pub const MIN_PANEL_H: i32 = 60;

/// A ratio of one whole, in ten-thousandths.
pub const RATIO_ONE: u16 = 10000;

/// The ratio of a fresh split.
pub const RATIO_HALF: u16 = 5000;

/// Smallest ratio a drag can set.
pub const RATIO_MIN: u16 = 1000;

/// Largest ratio a drag can set.
pub const RATIO_MAX: u16 = 9000;

/// How a split divides its area: `Horizontal` puts the children side by
/// side, `Vertical` one above the other.
#[derive(Clone, Copy, Debug, PartialEq, Eq, Structural)]
pub enum SplitDirection {
    Horizontal,
    Vertical,
}

/// A rectangle on screen, in pixels.
#[derive(Clone, Copy, Debug, PartialEq, Eq, Structural)]
pub struct PanelRect {
    pub x: i32,
    pub y: i32,
    pub w: i32,
    pub h: i32,
}

/// `v` is a value of `i32`.
pub open spec fn in_i32(v: int) -> bool {
    i32::MIN <= v <= i32::MAX
}

impl PanelRect {
    /// The point `(px, py)` lies in the rectangle (left and top edges inclusive).
    pub open spec fn contains_spec(self, px: int, py: int) -> bool {
        px >= self.x && px < self.x + self.w && py >= self.y && py < self.y + self.h
    }

    /// Whether the point lies in the rectangle.
    pub fn contains(&self, px: i32, py: i32) -> (r: bool)
        requires
            in_i32(self.x + self.w),
            in_i32(self.y + self.h),
        ensures
            r == self.contains_spec(px as int, py as int),
    {
        px >= self.x && px < self.x + self.w && py >= self.y && py < self.y + self.h
    }
}

/// A panel: an area of the screen with its own tabs.
pub struct Panel<T> {
    pub id: u32,
    pub tabs: Vec<T>,
    pub active_tab: usize,
    pub tab_bar: TabBar,
    pub rect: PanelRect,
}

impl<T> Panel<T> {
    /// A panel holding one tab, not laid out yet.
    pub fn new(id: u32, initial_tab: T, cell_height: i32) -> (r: Self)
        requires
            cell_height <= i32::MAX - 14,
        ensures
            r.id == id,
            r.tabs@ == seq![initial_tab],
            r.active_tab == 0,
            r.tab_bar.height == cell_height + 14,
            r.rect == (PanelRect { x: 0, y: 0, w: 0, h: 0 }),
    {
        let mut tabs = Vec::new();
        tabs.push(initial_tab);
        Panel {
            id,
            tabs,
            active_tab: 0,
            tab_bar: TabBar::new(cell_height),
            rect: PanelRect { x: 0, y: 0, w: 0, h: 0 },
        }
    }

    /// The tab shown in the panel.
    pub fn active_tab(&self) -> (r: &T)
        requires
            self.active_tab < self.tabs@.len(),
        ensures
            *r == self.tabs@[self.active_tab as int],
    {
        &self.tabs[self.active_tab]
    }

    /// The tab shown in the panel, for changing it.
    pub fn active_tab_mut(&mut self) -> (r: &mut T)
        requires
            old(self).active_tab < old(self).tabs@.len(),
        ensures
            *r == old(self).tabs@[old(self).active_tab as int],
            final(self).tabs@ == old(self).tabs@.update(old(self).active_tab as int, *final(r)),
            final(self).id == old(self).id,
            final(self).active_tab == old(self).active_tab,
            final(self).tab_bar == old(self).tab_bar,
            final(self).rect == old(self).rect,
    {
        &mut self.tabs[self.active_tab]
    }
}

/// What a tab shortcut or a click on the tab bar did to a panel.
#[derive(Clone, Copy, Debug, PartialEq, Eq, Structural)]
pub enum TabStep {
    /// Nothing.
    Unchanged,
    /// Another tab is shown.
    Shown,
    /// The panel has no tab left.
    Emptied,
    /// A new tab is to be opened and added.
    NewTabWanted,
}

/// The active tab after one was removed, `remaining` being left.
pub open spec fn after_remove_spec(active: int, remaining: int) -> int {
    if active < remaining - 1 {
        active
    } else {
        remaining - 1
    }
}

/// A panel's tabs and active tab after a tab shortcut: Cmd+W removes the
/// active tab and shows the one at its place or the last, reporting a
/// panel left empty; cycling wraps around; Cmd+number picks a tab; a new
/// tab is left to the caller.
pub open spec fn shortcut_step<T>(tabs: Seq<T>, active: int, s: TabShortcut) -> (Seq<T>, int, TabStep) {
    match s {
        TabShortcut::NewTab => (tabs, active, TabStep::NewTabWanted),
        TabShortcut::CloseTab => {
            let t = if active < tabs.len() {
                tabs.remove(active)
            } else {
                tabs
            };
            if t.len() == 0 {
                (t, active, TabStep::Emptied)
            } else {
                (t, after_remove_spec(active, t.len() as int), TabStep::Shown)
            }
        },
        TabShortcut::NextTab => if tabs.len() > 0 && active < usize::MAX {
            (tabs, (active + 1) % (tabs.len() as int), TabStep::Shown)
        } else {
            (tabs, active, TabStep::Unchanged)
        },
        TabShortcut::PrevTab => if tabs.len() > 0 && active < usize::MAX {
            (tabs, if active == 0 {
                tabs.len() - 1
            } else {
                active - 1
            }, TabStep::Shown)
        } else {
            (tabs, active, TabStep::Unchanged)
        },
        TabShortcut::SelectTab(i) => (tabs, i as int, TabStep::Shown),
    }
}

/// A panel's tabs and active tab after a click on its tab bar: a tab's
/// body shows it; its close button removes it and shows the one at its
/// place or the last, reporting a panel left empty; `+` is left to the
/// caller.
pub open spec fn click_step<T>(tabs: Seq<T>, active: int, a: TabBarAction) -> (Seq<T>, int, TabStep) {
    match a {
        TabBarAction::NoAction => (tabs, active, TabStep::Unchanged),
        TabBarAction::SwitchTo(i) => (tabs, i as int, TabStep::Shown),
        TabBarAction::Close(i) => {
            let t = tabs.remove(i as int);
            if t.len() == 0 {
                (t, active, TabStep::Emptied)
            } else {
                (t, after_remove_spec(active, t.len() as int), TabStep::Shown)
            }
        },
        TabBarAction::New => (tabs, active, TabStep::NewTabWanted),
    }
}

/// A tab shortcut on a panel whose active tab is one of its tabs, picking
/// one of its tabs by number, leaves the active tab one of its tabs, unless
/// no tab is left.
pub proof fn lemma_shortcut_keeps_active_tab<T>(tabs: Seq<T>, active: int, s: TabShortcut)
    requires
        0 <= active < tabs.len(),
        s matches TabShortcut::SelectTab(i) ==> i < tabs.len(),
    ensures
        shortcut_step(tabs, active, s).2 != TabStep::Emptied ==> 0 <= shortcut_step(tabs, active, s).1
            < shortcut_step(tabs, active, s).0.len(),
{
}

/// A click on the tab bar of a panel whose active tab is one of its tabs,
/// on one of its tabs, leaves the active tab one of its tabs, unless no
/// tab is left.
pub proof fn lemma_click_keeps_active_tab<T>(tabs: Seq<T>, active: int, a: TabBarAction)
    requires
        0 <= active < tabs.len(),
        a matches TabBarAction::SwitchTo(i) ==> i < tabs.len(),
        a matches TabBarAction::Close(i) ==> i < tabs.len(),
    ensures
        click_step(tabs, active, a).2 != TabStep::Emptied ==> 0 <= click_step(tabs, active, a).1
            < click_step(tabs, active, a).0.len(),
{
}

impl<T> Panel<T> {
    /// Adds a tab after the others and shows it.
    pub fn add_tab(&mut self, tab: T)
        requires
            old(self).tabs@.len() < usize::MAX,
        ensures
            final(self).tabs@ == old(self).tabs@.push(tab),
            final(self).active_tab == old(self).tabs@.len(),
            final(self).id == old(self).id,
            final(self).tab_bar == old(self).tab_bar,
            final(self).rect == old(self).rect,
    {
        self.tabs.push(tab);
        self.active_tab = self.tabs.len() - 1;
    }

    /// Removes tab `i`; the tab at its place, or the last, is shown.
    /// Returns whether no tab is left.
    fn remove_tab(&mut self, i: usize) -> (emptied: bool)
        requires
            i < old(self).tabs@.len(),
        ensures
            final(self).tabs@ == old(self).tabs@.remove(i as int),
            emptied == (final(self).tabs@.len() == 0),
            final(self).active_tab == (if emptied {
                old(self).active_tab as int
            } else {
                after_remove_spec(old(self).active_tab as int, final(self).tabs@.len() as int)
            }),
            final(self).id == old(self).id,
            final(self).tab_bar == old(self).tab_bar,
            final(self).rect == old(self).rect,
    {
        self.tabs.remove(i);
        if self.tabs.len() == 0 {
            true
        } else {
            self.active_tab = active_after_remove(self.active_tab, self.tabs.len());
            false
        }
    }

    /// Applies a tab shortcut, as [`shortcut_step`] says.
    pub fn apply_tab_shortcut(&mut self, s: TabShortcut) -> (r: TabStep)
        ensures
            (final(self).tabs@, final(self).active_tab as int, r) == shortcut_step(
                old(self).tabs@,
                old(self).active_tab as int,
                s,
            ),
            final(self).id == old(self).id,
            final(self).tab_bar == old(self).tab_bar,
            final(self).rect == old(self).rect,
    {
        match s {
            TabShortcut::NewTab => TabStep::NewTabWanted,
            TabShortcut::CloseTab => {
                if self.active_tab < self.tabs.len() {
                    let i = self.active_tab;
                    if self.remove_tab(i) {
                        TabStep::Emptied
                    } else {
                        TabStep::Shown
                    }
                } else if self.tabs.len() == 0 {
                    TabStep::Emptied
                } else {
                    self.active_tab = active_after_remove(self.active_tab, self.tabs.len());
                    TabStep::Shown
                }
            },
            TabShortcut::NextTab => {
                if self.tabs.len() > 0 && self.active_tab < usize::MAX {
                    self.active_tab = next_tab(self.active_tab, self.tabs.len());
                    TabStep::Shown
                } else {
                    TabStep::Unchanged
                }
            },
            TabShortcut::PrevTab => {
                if self.tabs.len() > 0 && self.active_tab < usize::MAX {
                    self.active_tab = prev_tab(self.active_tab, self.tabs.len());
                    TabStep::Shown
                } else {
                    TabStep::Unchanged
                }
            },
            TabShortcut::SelectTab(i) => {
                self.active_tab = i;
                TabStep::Shown
            },
        }
    }

    /// Applies a click on the tab bar, as [`click_step`] says.
    pub fn apply_tab_click(&mut self, a: TabBarAction) -> (r: TabStep)
        requires
            a matches TabBarAction::Close(i) ==> i < old(self).tabs@.len(),
        ensures
            (final(self).tabs@, final(self).active_tab as int, r) == click_step(
                old(self).tabs@,
                old(self).active_tab as int,
                a,
            ),
            final(self).id == old(self).id,
            final(self).tab_bar == old(self).tab_bar,
            final(self).rect == old(self).rect,
    {
        match a {
            TabBarAction::NoAction => TabStep::Unchanged,
            TabBarAction::SwitchTo(i) => {
                self.active_tab = i;
                TabStep::Shown
            },
            TabBarAction::Close(i) => {
                if self.remove_tab(i) {
                    TabStep::Emptied
                } else {
                    TabStep::Shown
                }
            },
            TabBarAction::New => TabStep::NewTabWanted,
        }
    }
}

/// Where a press on a separator landed: the split's direction, where its
/// area starts and how long it is along that direction, and the path from
/// the root to the split (`false` for left or top, `true` for right or
/// bottom).
pub struct SeparatorHit {
    pub direction: SplitDirection,
    pub origin: i32,
    pub total: i32,
    pub path: Vec<bool>,
}

/// The tree of panels of a workspace.
pub enum SplitNode<T> {
    Leaf(Panel<T>),
    Split {
        direction: SplitDirection,
        ratio: u16,
        left: Box<SplitNode<T>>,
        right: Box<SplitNode<T>>,
    },
}

// ---------------------------------------------------------------------------
// Layout.
// ---------------------------------------------------------------------------

/// `v` limited to the range of `i32`, as a float-to-integer cast limits it.
pub open spec fn sat_i32(v: int) -> int {
    if v > i32::MAX {
        i32::MAX as int
    } else if v < i32::MIN {
        i32::MIN as int
    } else {
        v
    }
}

/// Extent of the first child of a split over `total` pixels: the share
/// given by the ratio, at least `min`, but leaving `min` for the second
/// child after the separator (the second bound wins when both cannot hold).
pub open spec fn first_extent(total: int, ratio: int, min: int) -> int {
    let raw = sat_i32(trunc_div((total - SEPARATOR_PX) * ratio, RATIO_ONE as int));
    let at_least = if raw > min {
        raw
    } else {
        min
    };
    let bound = total - SEPARATOR_PX - min;
    if at_least < bound {
        at_least
    } else {
        bound
    }
}

/// Areas of the two children of a split of `r`.
pub open spec fn child_rects(d: SplitDirection, ratio: int, r: PanelRect) -> (PanelRect, PanelRect) {
    match d {
        SplitDirection::Horizontal => {
            let lw = first_extent(r.w as int, ratio, MIN_PANEL_W as int);
            (
                PanelRect { x: r.x, y: r.y, w: lw as i32, h: r.h },
                PanelRect {
                    x: (r.x + lw + SEPARATOR_PX) as i32,
                    y: r.y,
                    w: (r.w - SEPARATOR_PX - lw) as i32,
                    h: r.h,
                },
            )
        },
        SplitDirection::Vertical => {
            let th = first_extent(r.h as int, ratio, MIN_PANEL_H as int);
            (
                PanelRect { x: r.x, y: r.y, w: r.w, h: th as i32 },
                PanelRect {
                    x: r.x,
                    y: (r.y + th + SEPARATOR_PX) as i32,
                    w: r.w,
                    h: (r.h - SEPARATOR_PX - th) as i32,
                },
            )
        },
    }
}

/// Laying out a split of `r` stays within `i32`.
pub open spec fn split_fits(d: SplitDirection, ratio: int, r: PanelRect) -> bool {
    match d {
        SplitDirection::Horizontal => {
            let lw = first_extent(r.w as int, ratio, MIN_PANEL_W as int);
            &&& in_i32(r.w - SEPARATOR_PX - MIN_PANEL_W)
            &&& in_i32(r.w - SEPARATOR_PX - lw)
            &&& in_i32(r.x + lw)
            &&& in_i32(r.x + lw + SEPARATOR_PX)
        },
        SplitDirection::Vertical => {
            let th = first_extent(r.h as int, ratio, MIN_PANEL_H as int);
            &&& in_i32(r.h - SEPARATOR_PX - MIN_PANEL_H)
            &&& in_i32(r.h - SEPARATOR_PX - th)
            &&& in_i32(r.y + th)
            &&& in_i32(r.y + th + SEPARATOR_PX)
        },
    }
}

/// The tree with each panel given its area within `r`.
pub open spec fn layout_spec<T>(n: SplitNode<T>, r: PanelRect) -> SplitNode<T>
    decreases n,
{
    match n {
        SplitNode::Leaf(p) => SplitNode::Leaf(Panel { rect: r, ..p }),
        SplitNode::Split { direction, ratio, left, right } => {
            let (lr, rr) = child_rects(direction, ratio as int, r);
            SplitNode::Split {
                direction,
                ratio,
                left: Box::new(layout_spec(*left, lr)),
                right: Box::new(layout_spec(*right, rr)),
            }
        },
    }
}

/// Laying out the tree within `r` stays within `i32` everywhere.
pub open spec fn layout_fits<T>(n: SplitNode<T>, r: PanelRect) -> bool
    decreases n,
{
    match n {
        SplitNode::Leaf(_) => true,
        SplitNode::Split { direction, ratio, left, right } => {
            let (lr, rr) = child_rects(direction, ratio as int, r);
            &&& split_fits(direction, ratio as int, r)
            &&& layout_fits(*left, lr)
            &&& layout_fits(*right, rr)
        },
    }
}

/// Exec form of [`first_extent`].
fn first_extent_exec(total: i32, ratio: u16, min: i32) -> (r: i32)
    requires
        in_i32(total - SEPARATOR_PX - min),
        min >= 0,
    ensures
        r == first_extent(total as int, ratio as int, min as int),
{
    let avail: i64 = (total as i64) - (SEPARATOR_PX as i64);
    assert(-4294967298 * 65535 <= avail * (ratio as i64) <= 4294967298 * 65535) by (nonlinear_arith)
        requires
            -4294967298 <= avail <= 4294967298,
            0 <= ratio <= 65535,
    ;
    let prod: i64 = avail * (ratio as i64);
    let q: i64 = div_toward_zero(prod, RATIO_ONE as i64);
    let raw: i64 = if q > i32::MAX as i64 {
        i32::MAX as i64
    } else if q < i32::MIN as i64 {
        i32::MIN as i64
    } else {
        q
    };
    let at_least: i64 = if raw > min as i64 {
        raw
    } else {
        min as i64
    };
    let bound: i64 = (total as i64) - (SEPARATOR_PX as i64) - (min as i64);
    let r: i64 = if at_least < bound {
        at_least
    } else {
        bound
    };
    r as i32
}

/// Exec form of [`split_fits`].
fn split_fits_exec(d: SplitDirection, ratio: u16, r: PanelRect) -> (b: bool)
    ensures
        b == split_fits(d, ratio as int, r),
{
    match d {
        SplitDirection::Horizontal => {
            let b0: i64 = r.w as i64 - SEPARATOR_PX as i64 - MIN_PANEL_W as i64;
            if b0 < i32::MIN as i64 {
                return false;
            }
            let lw = first_extent_exec(r.w, ratio, MIN_PANEL_W) as i64;
            let a: i64 = r.w as i64 - SEPARATOR_PX as i64 - lw;
            let c: i64 = r.x as i64 + lw;
            let e: i64 = c + SEPARATOR_PX as i64;
            i32::MIN as i64 <= a && a <= i32::MAX as i64 && i32::MIN as i64 <= c && c
                <= i32::MAX as i64 && i32::MIN as i64 <= e && e <= i32::MAX as i64
        },
        SplitDirection::Vertical => {
            let b0: i64 = r.h as i64 - SEPARATOR_PX as i64 - MIN_PANEL_H as i64;
            if b0 < i32::MIN as i64 {
                return false;
            }
            let th = first_extent_exec(r.h, ratio, MIN_PANEL_H) as i64;
            let a: i64 = r.h as i64 - SEPARATOR_PX as i64 - th;
            let c: i64 = r.y as i64 + th;
            let e: i64 = c + SEPARATOR_PX as i64;
            i32::MIN as i64 <= a && a <= i32::MAX as i64 && i32::MIN as i64 <= c && c
                <= i32::MAX as i64 && i32::MIN as i64 <= e && e <= i32::MAX as i64
        },
    }
}

/// Exec form of [`child_rects`].
fn child_rects_exec(d: SplitDirection, ratio: u16, r: PanelRect) -> (c: (PanelRect, PanelRect))
    requires
        split_fits(d, ratio as int, r),
    ensures
        c == child_rects(d, ratio as int, r),
{
    match d {
        SplitDirection::Horizontal => {
            let left_w = first_extent_exec(r.w, ratio, MIN_PANEL_W);
            let right_w = r.w - SEPARATOR_PX - left_w;
            (
                PanelRect { x: r.x, y: r.y, w: left_w, h: r.h },
                PanelRect { x: r.x + left_w + SEPARATOR_PX, y: r.y, w: right_w, h: r.h },
            )
        },
        SplitDirection::Vertical => {
            let top_h = first_extent_exec(r.h, ratio, MIN_PANEL_H);
            let bottom_h = r.h - SEPARATOR_PX - top_h;
            (
                PanelRect { x: r.x, y: r.y, w: r.w, h: top_h },
                PanelRect { x: r.x, y: r.y + top_h + SEPARATOR_PX, w: r.w, h: bottom_h },
            )
        },
    }
}

// ---------------------------------------------------------------------------
// The shape of the tree.
// ---------------------------------------------------------------------------

/// Ids of the panels, left to right.
pub open spec fn leaves<T>(n: SplitNode<T>) -> Seq<u32>
    decreases n,
{
    match n {
        SplitNode::Leaf(p) => seq![p.id],
        SplitNode::Split { left, right, .. } => leaves(*left) + leaves(*right),
    }
}

/// The leftmost panel with the given id.
pub open spec fn find_panel<T>(n: SplitNode<T>, id: u32) -> Option<Panel<T>>
    decreases n,
{
    match n {
        SplitNode::Leaf(p) => if p.id == id {
            Some(p)
        } else {
            None
        },
        SplitNode::Split { left, right, .. } => match find_panel(*left, id) {
            Some(p) => Some(p),
            None => find_panel(*right, id),
        },
    }
}

/// The tree with the leftmost panel of the given id replaced by `q`.
pub open spec fn replace_panel<T>(n: SplitNode<T>, id: u32, q: Panel<T>) -> SplitNode<T>
    decreases n,
{
    match n {
        SplitNode::Leaf(p) => if p.id == id {
            SplitNode::Leaf(q)
        } else {
            n
        },
        SplitNode::Split { direction, ratio, left, right } => if find_panel(*left, id) is Some {
            SplitNode::Split { direction, ratio, left: Box::new(replace_panel(*left, id, q)), right }
        } else {
            SplitNode::Split { direction, ratio, left, right: Box::new(replace_panel(*right, id, q)) }
        },
    }
}

/// The first panel, in left-to-right order, whose area holds the point.
pub open spec fn panel_at<T>(n: SplitNode<T>, x: int, y: int) -> Option<Panel<T>>
    decreases n,
{
    match n {
        SplitNode::Leaf(p) => if p.rect.contains_spec(x, y) {
            Some(p)
        } else {
            None
        },
        SplitNode::Split { left, right, .. } => match panel_at(*left, x, y) {
            Some(p) => Some(p),
            None => panel_at(*right, x, y),
        },
    }
}

/// The tree with the panel that [`panel_at`] finds replaced by `q`.
pub open spec fn replace_panel_at<T>(n: SplitNode<T>, x: int, y: int, q: Panel<T>) -> SplitNode<T>
    decreases n,
{
    match n {
        SplitNode::Leaf(p) => if p.rect.contains_spec(x, y) {
            SplitNode::Leaf(q)
        } else {
            n
        },
        SplitNode::Split { direction, ratio, left, right } => if panel_at(*left, x, y) is Some {
            SplitNode::Split {
                direction,
                ratio,
                left: Box::new(replace_panel_at(*left, x, y, q)),
                right,
            }
        } else {
            SplitNode::Split {
                direction,
                ratio,
                left,
                right: Box::new(replace_panel_at(*right, x, y, q)),
            }
        },
    }
}

/// Every panel's area has its right and bottom edge within `i32`.
pub open spec fn edges_fit<T>(n: SplitNode<T>) -> bool
    decreases n,
{
    match n {
        SplitNode::Leaf(p) => in_i32(p.rect.x + p.rect.w) && in_i32(p.rect.y + p.rect.h),
        SplitNode::Split { left, right, .. } => edges_fit(*left) && edges_fit(*right),
    }
}

/// The tree with the leftmost panel of the given id split in two: the
/// panel first, `new_panel` second, at half each.
pub open spec fn split_spec<T>(n: SplitNode<T>, id: u32, d: SplitDirection, new_panel: Panel<T>) -> SplitNode<T>
    decreases n,
{
    match n {
        SplitNode::Leaf(p) => if p.id == id {
            SplitNode::Split {
                direction: d,
                ratio: RATIO_HALF,
                left: Box::new(SplitNode::Leaf(p)),
                right: Box::new(SplitNode::Leaf(new_panel)),
            }
        } else {
            n
        },
        SplitNode::Split { direction, ratio, left, right } => if leaves(*left).contains(id) {
            SplitNode::Split {
                direction,
                ratio,
                left: Box::new(split_spec(*left, id, d, new_panel)),
                right,
            }
        } else {
            SplitNode::Split {
                direction,
                ratio,
                left,
                right: Box::new(split_spec(*right, id, d, new_panel)),
            }
        },
    }
}

/// A leaf holding a panel with the given id.
pub open spec fn is_leaf_with<T>(n: SplitNode<T>, id: u32) -> bool {
    n matches SplitNode::Leaf(p) && p.id == id
}

/// The tree after closing the panel with the given id: the first split
/// (left before right, parent before child) that has that panel as a
/// direct child is replaced by its other child. The flag tells whether
/// such a split was found.
pub open spec fn close_spec<T>(n: SplitNode<T>, id: u32) -> (SplitNode<T>, bool)
    decreases n,
{
    match n {
        SplitNode::Leaf(_) => (n, false),
        SplitNode::Split { direction, ratio, left, right } => if is_leaf_with(*left, id) {
            (*right, true)
        } else if is_leaf_with(*right, id) {
            (*left, true)
        } else {
            let (nl, bl) = close_spec(*left, id);
            if bl {
                (SplitNode::Split { direction, ratio, left: Box::new(nl), right }, true)
            } else {
                let (nr, br) = close_spec(*right, id);
                (SplitNode::Split { direction, ratio, left, right: Box::new(nr) }, br)
            }
        },
    }
}

/// Closing changes nothing when no panel was closed.
pub proof fn lemma_close_unchanged<T>(n: SplitNode<T>, id: u32)
    ensures
        !close_spec(n, id).1 ==> close_spec(n, id).0 == n,
    decreases n,
{
    if let SplitNode::Split { left, right, .. } = n {
        lemma_close_unchanged(*left, id);
        lemma_close_unchanged(*right, id);
    }
}

proof fn lemma_contains_concat(a: Seq<u32>, b: Seq<u32>, x: u32)
    ensures
        (a + b).contains(x) == (a.contains(x) || b.contains(x)),
{
    if a.contains(x) {
        let i = choose|i: int| 0 <= i < a.len() && a[i] == x;
        assert((a + b)[i] == x);
    }
    if b.contains(x) {
        let i = choose|i: int| 0 <= i < b.len() && b[i] == x;
        assert((a + b)[a.len() + i] == x);
    }
    if (a + b).contains(x) {
        let i = choose|i: int| 0 <= i < (a + b).len() && (a + b)[i] == x;
        if i < a.len() {
            assert(a[i] == x);
        } else {
            assert(b[i - a.len()] == x);
        }
    }
}

/// An empty panel with id 0 and no area, standing in for a tree while it
/// is taken apart.
fn placeholder<T>() -> (r: SplitNode<T>)
    ensures
        r matches SplitNode::Leaf(p) && p.id == 0 && p.tabs@.len() == 0 && p.active_tab == 0
            && p.tab_bar.height == 15 && p.rect == (PanelRect { x: 0, y: 0, w: 0, h: 0 }),
{
    SplitNode::Leaf(
        Panel {
            id: 0,
            tabs: Vec::new(),
            active_tab: 0,
            tab_bar: TabBar { height: 15 },
            rect: PanelRect { x: 0, y: 0, w: 0, h: 0 },
        },
    )
}

impl<T> SplitNode<T> {
    /// Gives every panel its area within `rect`: a horizontal split gives
    /// its left child the ratio's share of the width less the separator
    /// (at least [`MIN_PANEL_W`], leaving the same for the right child),
    /// the right child the rest after the separator; a vertical split does
    /// the same with heights and [`MIN_PANEL_H`].
    pub fn layout(&mut self, rect: PanelRect)
        requires
            layout_fits(*old(self), rect),
        ensures
            *final(self) == layout_spec(*old(self), rect),
        decreases *old(self),
    {
        match self {
            SplitNode::Leaf(panel) => {
                panel.rect = rect;
            },
            SplitNode::Split { direction, ratio, left, right } => {
                let (lr, rr) = child_rects_exec(*direction, *ratio, rect);
                left.layout(lr);
                right.layout(rr);
            },
        }
    }

    /// Whether [`layout`](Self::layout) within `rect` stays within `i32`.
    pub fn layout_fits_exec(&self, rect: PanelRect) -> (r: bool)
        ensures
            r == layout_fits(*self, rect),
        decreases *self,
    {
        match self {
            SplitNode::Leaf(_) => true,
            SplitNode::Split { direction, ratio, left, right } => {
                if !split_fits_exec(*direction, *ratio, rect) {
                    return false;
                }
                let (lr, rr) = child_rects_exec(*direction, *ratio, rect);
                left.layout_fits_exec(lr) && right.layout_fits_exec(rr)
            },
        }
    }

    /// The leftmost panel whose area holds the point, for changing it.
    pub fn find_panel_at(&mut self, x: i32, y: i32) -> (r: Option<&mut Panel<T>>)
        requires
            edges_fit(*old(self)),
        ensures
            match r {
                Some(p) => panel_at(*old(self), x as int, y as int) == Some(*p) && *final(self)
                    == replace_panel_at(*old(self), x as int, y as int, *final(p)),
                None => panel_at(*old(self), x as int, y as int) is None && *final(self)
                    == *old(self),
            },
        decreases *old(self),
    {
        match self {
            SplitNode::Leaf(panel) => {
                if panel.rect.contains(x, y) {
                    Some(panel)
                } else {
                    None
                }
            },
            SplitNode::Split { left, right, .. } => {
                if left.find_panel_id_at(x, y).is_some() {
                    left.find_panel_at(x, y)
                } else {
                    right.find_panel_at(x, y)
                }
            },
        }
    }

    /// Id of the leftmost panel whose area holds the point.
    pub fn find_panel_id_at(&self, x: i32, y: i32) -> (r: Option<u32>)
        requires
            edges_fit(*self),
        ensures
            match r {
                Some(id) => panel_at(*self, x as int, y as int) matches Some(p) && p.id == id,
                None => panel_at(*self, x as int, y as int) is None,
            },
        decreases *self,
    {
        match self {
            SplitNode::Leaf(panel) => {
                if panel.rect.contains(x, y) {
                    Some(panel.id)
                } else {
                    None
                }
            },
            SplitNode::Split { left, right, .. } => {
                match left.find_panel_id_at(x, y) {
                    Some(id) => Some(id),
                    None => right.find_panel_id_at(x, y),
                }
            },
        }
    }

    /// The leftmost panel with the given id.
    pub fn panel_by_id(&self, id: u32) -> (r: Option<&Panel<T>>)
        ensures
            match r {
                Some(p) => find_panel(*self, id) == Some(*p),
                None => find_panel(*self, id) is None,
            },
        decreases *self,
    {
        match self {
            SplitNode::Leaf(panel) => {
                if panel.id == id {
                    Some(panel)
                } else {
                    None
                }
            },
            SplitNode::Split { left, right, .. } => {
                match left.panel_by_id(id) {
                    Some(p) => Some(p),
                    None => right.panel_by_id(id),
                }
            },
        }
    }

    /// The leftmost panel with the given id, for changing it.
    pub fn panel_by_id_mut(&mut self, id: u32) -> (r: Option<&mut Panel<T>>)
        ensures
            match r {
                Some(p) => find_panel(*old(self), id) == Some(*p) && p.id == id && *final(self)
                    == replace_panel(*old(self), id, *final(p)),
                None => find_panel(*old(self), id) is None && *final(self) == *old(self),
            },
        decreases *old(self),
    {
        match self {
            SplitNode::Leaf(panel) => {
                if panel.id == id {
                    Some(panel)
                } else {
                    None
                }
            },
            SplitNode::Split { left, right, .. } => {
                if left.panel_by_id(id).is_some() {
                    left.panel_by_id_mut(id)
                } else {
                    right.panel_by_id_mut(id)
                }
            },
        }
    }

    /// Ids of the panels, left to right.
    pub fn collect_leaves(&self) -> (r: Vec<u32>)
        ensures
            r@ == leaves(*self),
    {
        let mut ids: Vec<u32> = Vec::new();
        self.collect_leaves_inner(&mut ids);
        ids
    }

    fn collect_leaves_inner(&self, ids: &mut Vec<u32>)
        ensures
            final(ids)@ == old(ids)@ + leaves(*self),
        decreases *self,
    {
        match self {
            SplitNode::Leaf(panel) => {
                ids.push(panel.id);
            },
            SplitNode::Split { left, right, .. } => {
                left.collect_leaves_inner(ids);
                right.collect_leaves_inner(ids);
                assert(final(ids)@ =~= old(ids)@ + leaves(*self));
            },
        }
    }

    /// Number of panels.
    pub fn panel_count(&self) -> (r: usize)
        ensures
            r == leaves(*self).len(),
    {
        self.collect_leaves().len()
    }

    /// Splits the leftmost panel with the given id: it becomes the first
    /// child of a new split in `direction` at half each, `new_panel` the
    /// second. Returns whether such a panel was found; the tree is unchanged
    /// when it was not.
    pub fn split_panel(&mut self, panel_id: u32, direction: SplitDirection, new_panel: Panel<T>) -> (r:
        bool)
        ensures
            r == leaves(*old(self)).contains(panel_id),
            *final(self) == split_spec(*old(self), panel_id, direction, new_panel),
        decreases *old(self),
    {
        let mut old_node: SplitNode<T> = placeholder();
        std::mem::swap(self, &mut old_node);
        match old_node {
            SplitNode::Leaf(p) => {
                assert(leaves(SplitNode::Leaf(p)) == seq![p.id]);
                assert(seq![p.id].contains(panel_id) <==> p.id == panel_id) by {
                    if p.id == panel_id {
                        assert(seq![p.id][0] == panel_id);
                    }
                }
                if p.id == panel_id {
                    *self = SplitNode::Split {
                        direction,
                        ratio: RATIO_HALF,
                        left: Box::new(SplitNode::Leaf(p)),
                        right: Box::new(SplitNode::Leaf(new_panel)),
                    };
                    true
                } else {
                    *self = SplitNode::Leaf(p);
                    false
                }
            },
            SplitNode::Split { direction: d, ratio, left, right } => {
                let mut l: SplitNode<T> = *left;
                let mut r: SplitNode<T> = *right;
                let in_left = l.contains_panel(panel_id);
                let done = if in_left {
                    l.split_panel(panel_id, direction, new_panel)
                } else {
                    r.split_panel(panel_id, direction, new_panel)
                };
                proof {
                    lemma_contains_concat(leaves(*left), leaves(*right), panel_id);
                }
                *self = SplitNode::Split { direction: d, ratio, left: Box::new(l), right: Box::new(r) };
                done
            },
        }
    }

    /// Whether some panel has the given id.
    pub fn contains_panel(&self, id: u32) -> (r: bool)
        ensures
            r == leaves(*self).contains(id),
    {
        let ids = self.collect_leaves();
        let mut i: usize = 0;
        while i < ids.len()
            invariant
                i <= ids@.len(),
                ids@ == leaves(*self),
                forall|j: int| 0 <= j < i ==> ids@[j] != id,
            decreases ids@.len() - i,
        {
            if ids[i] == id {
                assert(ids@[i as int] == id);
                return true;
            }
            i += 1;
        }
        false
    }

    /// Closes a panel: the first split found (left before right, parent
    /// before child) with a direct child panel of that id is replaced by
    /// its other child. Returns whether one was found; a lone panel is
    /// never closed.
    pub fn close_panel(&mut self, panel_id: u32) -> (r: bool)
        ensures
            (*final(self), r) == close_spec(*old(self), panel_id),
        decreases *old(self),
    {
        let is_leaf = match self {
            SplitNode::Leaf(_) => true,
            _ => false,
        };
        if is_leaf {
            return false;
        }
        let mut old_node: SplitNode<T> = placeholder();
        std::mem::swap(self, &mut old_node);
        match old_node {
            SplitNode::Leaf(p) => {
                *self = SplitNode::Leaf(p);
                false
            },
            SplitNode::Split { direction, ratio, left, right } => {
                let left_hit = match &*left {
                    SplitNode::Leaf(p) => p.id == panel_id,
                    _ => false,
                };
                assert(left_hit == is_leaf_with(*left, panel_id));
                if left_hit {
                    *self = *right;
                    return true;
                }
                let right_hit = match &*right {
                    SplitNode::Leaf(p) => p.id == panel_id,
                    _ => false,
                };
                assert(right_hit == is_leaf_with(*right, panel_id));
                if right_hit {
                    *self = *left;
                    return true;
                }
                let mut l: SplitNode<T> = *left;
                let mut r: SplitNode<T> = *right;
                let done_left = l.close_panel(panel_id);
                let done = if done_left {
                    true
                } else {
                    r.close_panel(panel_id)
                };
                proof {
                    lemma_close_unchanged(*left, panel_id);
                }
                *self = SplitNode::Split { direction, ratio, left: Box::new(l), right: Box::new(r) };
                done
            },
        }
    }
}


// ---------------------------------------------------------------------------
// Edges, spans and separators.
// ---------------------------------------------------------------------------

/// Right edge of the rightmost panel.
pub open spec fn right_edge<T>(n: SplitNode<T>) -> int
    decreases n,
{
    match n {
        SplitNode::Leaf(p) => p.rect.x + p.rect.w,
        SplitNode::Split { right, .. } => right_edge(*right),
    }
}

/// Bottom edge of the last panel.
pub open spec fn bottom_edge<T>(n: SplitNode<T>) -> int
    decreases n,
{
    match n {
        SplitNode::Leaf(p) => p.rect.y + p.rect.h,
        SplitNode::Split { right, .. } => bottom_edge(*right),
    }
}

/// Top and height of the smallest band holding all panels.
pub open spec fn vspan<T>(n: SplitNode<T>) -> (int, int)
    decreases n,
{
    match n {
        SplitNode::Leaf(p) => (p.rect.y as int, p.rect.h as int),
        SplitNode::Split { left, right, .. } => {
            let (ly, lh) = vspan(*left);
            let (ry, rh) = vspan(*right);
            let min_y = if ly < ry {
                ly
            } else {
                ry
            };
            let max_end = if ly + lh > ry + rh {
                ly + lh
            } else {
                ry + rh
            };
            (min_y, max_end - min_y)
        },
    }
}

/// Left and width of the smallest band holding all panels.
pub open spec fn hspan<T>(n: SplitNode<T>) -> (int, int)
    decreases n,
{
    match n {
        SplitNode::Leaf(p) => (p.rect.x as int, p.rect.w as int),
        SplitNode::Split { left, right, .. } => {
            let (lx, lw) = hspan(*left);
            let (rx, rw) = hspan(*right);
            let min_x = if lx < rx {
                lx
            } else {
                rx
            };
            let max_end = if lx + lw > rx + rw {
                lx + lw
            } else {
                rx + rw
            };
            (min_x, max_end - min_x)
        },
    }
}

/// Computing the vertical span stays within `i32`.
pub open spec fn vspan_fits<T>(n: SplitNode<T>) -> bool
    decreases n,
{
    match n {
        SplitNode::Leaf(p) => in_i32(p.rect.y + p.rect.h),
        SplitNode::Split { left, right, .. } => vspan_fits(*left) && vspan_fits(*right) && in_i32(
            vspan(n).1,
        ),
    }
}

/// Computing the horizontal span stays within `i32`.
pub open spec fn hspan_fits<T>(n: SplitNode<T>) -> bool
    decreases n,
{
    match n {
        SplitNode::Leaf(p) => in_i32(p.rect.x + p.rect.w),
        SplitNode::Split { left, right, .. } => hspan_fits(*left) && hspan_fits(*right) && in_i32(
            hspan(n).1,
        ),
    }
}

/// The press at `(mx, my)` is on this split's own separator (within
/// [`SEPARATOR_HIT_PX`] of it, and along the split's extent).
pub open spec fn on_own_separator<T>(n: SplitNode<T>, mx: int, my: int) -> bool {
    match n {
        SplitNode::Leaf(_) => false,
        SplitNode::Split { direction, left, .. } => match direction {
            SplitDirection::Horizontal => {
                let sep_x = right_edge(*left);
                let (sy, sh) = vspan(n);
                mx >= sep_x - SEPARATOR_HIT_PX && mx <= sep_x + SEPARATOR_PX + SEPARATOR_HIT_PX
                    && my >= sy && my < sy + sh
            },
            SplitDirection::Vertical => {
                let sep_y = bottom_edge(*left);
                let (sx, sw) = hspan(n);
                my >= sep_y - SEPARATOR_HIT_PX && my <= sep_y + SEPARATOR_PX + SEPARATOR_HIT_PX
                    && mx >= sx && mx < sx + sw
            },
        },
    }
}

/// The separator hit by a press: the first split, parent before children
/// and left before right, whose separator is under the press; with its
/// direction, the start and length of its area along that direction, and
/// its path from the root.
pub open spec fn sep_hit<T>(n: SplitNode<T>, mx: int, my: int) -> Option<(SplitDirection, int, int, Seq<bool>)>
    decreases n,
{
    match n {
        SplitNode::Leaf(_) => None,
        SplitNode::Split { direction, left, right, .. } => if on_own_separator(n, mx, my) {
            let (o, t) = match direction {
                SplitDirection::Horizontal => hspan(n),
                SplitDirection::Vertical => vspan(n),
            };
            Some((direction, o, t, Seq::<bool>::empty()))
        } else {
            match sep_hit(*left, mx, my) {
                Some((d, o, t, p)) => Some((d, o, t, seq![false] + p)),
                None => match sep_hit(*right, mx, my) {
                    Some((d, o, t, p)) => Some((d, o, t, seq![true] + p)),
                    None => None,
                },
            }
        },
    }
}

/// Hit-testing the separators at `(mx, my)` stays within `i32`.
pub open spec fn sep_fits<T>(n: SplitNode<T>, mx: int, my: int) -> bool
    decreases n,
{
    match n {
        SplitNode::Leaf(_) => true,
        SplitNode::Split { direction, left, right, .. } => {
            let here = match direction {
                SplitDirection::Horizontal => {
                    let sep_x = right_edge(*left);
                    &&& in_i32(sep_x)
                    &&& in_i32(sep_x - SEPARATOR_HIT_PX)
                    &&& (mx >= sep_x - SEPARATOR_HIT_PX ==> in_i32(
                        sep_x + SEPARATOR_PX + SEPARATOR_HIT_PX,
                    ))
                    &&& vspan_fits(n)
                    &&& (on_own_separator(n, mx, my) ==> hspan_fits(n))
                },
                SplitDirection::Vertical => {
                    let sep_y = bottom_edge(*left);
                    &&& in_i32(sep_y)
                    &&& in_i32(sep_y - SEPARATOR_HIT_PX)
                    &&& (my >= sep_y - SEPARATOR_HIT_PX ==> in_i32(
                        sep_y + SEPARATOR_PX + SEPARATOR_HIT_PX,
                    ))
                    &&& hspan_fits(n)
                    &&& (on_own_separator(n, mx, my) ==> vspan_fits(n))
                },
            };
            &&& here
            &&& (!on_own_separator(n, mx, my) ==> sep_fits(*left, mx, my))
            &&& (!on_own_separator(n, mx, my) && sep_hit(*left, mx, my) is None ==> sep_fits(
                *right,
                mx,
                my,
            ))
        },
    }
}

/// The separator lines to draw, parent before children and left before
/// right: for a horizontal split a column [`SEPARATOR_PX`] wide at the
/// right edge of its left child over the split's height, for a vertical
/// split a row at the bottom edge of its top child over its width.
pub open spec fn separators_spec<T>(n: SplitNode<T>) -> Seq<PanelRect>
    decreases n,
{
    match n {
        SplitNode::Leaf(_) => Seq::empty(),
        SplitNode::Split { direction, left, right, .. } => {
            let own = match direction {
                SplitDirection::Horizontal => {
                    let (sy, sh) = vspan(n);
                    PanelRect { x: right_edge(*left) as i32, y: sy as i32, w: SEPARATOR_PX, h: sh as i32 }
                },
                SplitDirection::Vertical => {
                    let (sx, sw) = hspan(n);
                    PanelRect { x: sx as i32, y: bottom_edge(*left) as i32, w: sw as i32, h: SEPARATOR_PX }
                },
            };
            seq![own] + separators_spec(*left) + separators_spec(*right)
        },
    }
}

/// Computing the separator lines stays within `i32`.
pub open spec fn separators_fit<T>(n: SplitNode<T>) -> bool
    decreases n,
{
    match n {
        SplitNode::Leaf(_) => true,
        SplitNode::Split { direction, left, right, .. } => {
            &&& match direction {
                SplitDirection::Horizontal => in_i32(right_edge(*left)) && vspan_fits(n),
                SplitDirection::Vertical => in_i32(bottom_edge(*left)) && hspan_fits(n),
            }
            &&& separators_fit(*left)
            &&& separators_fit(*right)
        },
    }
}

/// The tree with the ratio of the split at `path` set to `ratio` clamped
/// to [`RATIO_MIN`]..=[`RATIO_MAX`]; `None` when the path does not end at a split.
pub open spec fn set_ratio_spec<T>(n: SplitNode<T>, path: Seq<bool>, ratio: u16) -> Option<SplitNode<T>>
    decreases path.len(),
{
    match n {
        SplitNode::Leaf(_) => None,
        SplitNode::Split { direction, ratio: r0, left, right } => if path.len() == 0 {
            let c = if ratio < RATIO_MIN {
                RATIO_MIN
            } else if ratio > RATIO_MAX {
                RATIO_MAX
            } else {
                ratio
            };
            Some(SplitNode::Split { direction, ratio: c, left, right })
        } else if !path[0] {
            match set_ratio_spec(*left, path.drop_first(), ratio) {
                Some(nl) => Some(SplitNode::Split { direction, ratio: r0, left: Box::new(nl), right }),
                None => None,
            }
        } else {
            match set_ratio_spec(*right, path.drop_first(), ratio) {
                Some(nr) => Some(SplitNode::Split { direction, ratio: r0, left, right: Box::new(nr) }),
                None => None,
            }
        },
    }
}

fn min_i64(a: i64, b: i64) -> (r: i64)
    ensures
        r == (if a < b { a } else { b }),
{
    if a < b {
        a
    } else {
        b
    }
}

fn max_i64(a: i64, b: i64) -> (r: i64)
    ensures
        r == (if a > b { a } else { b }),
{
    if a > b {
        a
    } else {
        b
    }
}

pub proof fn lemma_span_bounds<T>(n: SplitNode<T>)
    ensures
        vspan_fits(n) ==> in_i32(vspan(n).0) && in_i32(vspan(n).1) && in_i32(vspan(n).0 + vspan(n).1),
        hspan_fits(n) ==> in_i32(hspan(n).0) && in_i32(hspan(n).1) && in_i32(hspan(n).0 + hspan(n).1),
    decreases n,
{
    if let SplitNode::Split { left, right, .. } = n {
        lemma_span_bounds(*left);
        lemma_span_bounds(*right);
    }
}

impl<T> SplitNode<T> {
    /// Right edge of the rightmost panel.
    pub fn right_edge(&self) -> (r: i32)
        requires
            in_i32(right_edge(*self)),
        ensures
            r == right_edge(*self),
        decreases *self,
    {
        match self {
            SplitNode::Leaf(p) => p.rect.x + p.rect.w,
            SplitNode::Split { right, .. } => right.right_edge(),
        }
    }

    /// Bottom edge of the last panel.
    pub fn bottom_edge(&self) -> (r: i32)
        requires
            in_i32(bottom_edge(*self)),
        ensures
            r == bottom_edge(*self),
        decreases *self,
    {
        match self {
            SplitNode::Leaf(p) => p.rect.y + p.rect.h,
            SplitNode::Split { right, .. } => right.bottom_edge(),
        }
    }

    /// Top and height of the smallest band holding all panels.
    pub fn vertical_span(&self) -> (r: (i32, i32))
        requires
            vspan_fits(*self),
        ensures
            r.0 == vspan(*self).0,
            r.1 == vspan(*self).1,
        decreases *self,
    {
        proof {
            lemma_span_bounds(*self);
        }
        match self {
            SplitNode::Leaf(p) => (p.rect.y, p.rect.h),
            SplitNode::Split { left, right, .. } => {
                proof {
                    lemma_span_bounds(**left);
                    lemma_span_bounds(**right);
                }
                let (ly, lh) = left.vertical_span();
                let (ry, rh) = right.vertical_span();
                let min_y = min_i64(ly as i64, ry as i64);
                let max_end = max_i64(ly as i64 + lh as i64, ry as i64 + rh as i64);
                (min_y as i32, (max_end - min_y) as i32)
            },
        }
    }

    /// Left and width of the smallest band holding all panels.
    pub fn horizontal_span(&self) -> (r: (i32, i32))
        requires
            hspan_fits(*self),
        ensures
            r.0 == hspan(*self).0,
            r.1 == hspan(*self).1,
        decreases *self,
    {
        proof {
            lemma_span_bounds(*self);
        }
        match self {
            SplitNode::Leaf(p) => (p.rect.x, p.rect.w),
            SplitNode::Split { left, right, .. } => {
                proof {
                    lemma_span_bounds(**left);
                    lemma_span_bounds(**right);
                }
                let (lx, lw) = left.horizontal_span();
                let (rx, rw) = right.horizontal_span();
                let min_x = min_i64(lx as i64, rx as i64);
                let max_end = max_i64(lx as i64 + lw as i64, rx as i64 + rw as i64);
                (min_x as i32, (max_end - min_x) as i32)
            },
        }
    }

    /// Whether the press is on this split's own separator.
    fn on_own_separator_exec(&self, mx: i32, my: i32) -> (r: bool)
        requires
            sep_fits(*self, mx as int, my as int),
        ensures
            r == on_own_separator(*self, mx as int, my as int),
    {
        match self {
            SplitNode::Leaf(_) => false,
            SplitNode::Split { direction, left, .. } => {
                proof {
                    lemma_span_bounds(*self);
                }
                match direction {
                    SplitDirection::Horizontal => {
                        let sep_x = left.right_edge() as i64;
                        let (sy, sh) = self.vertical_span();
                        mx as i64 >= sep_x - 6 && mx as i64 <= sep_x + 8 && my >= sy && (my as i64)
                            < sy as i64 + sh as i64
                    },
                    SplitDirection::Vertical => {
                        let sep_y = left.bottom_edge() as i64;
                        let (sx, sw) = self.horizontal_span();
                        my as i64 >= sep_y - 6 && my as i64 <= sep_y + 8 && mx >= sx && (mx as i64)
                            < sx as i64 + sw as i64
                    },
                }
            },
        }
    }

    /// The separator under a press, if any (see [`sep_hit`]).
    pub fn separator_at(&self, mx: i32, my: i32) -> (r: Option<SeparatorHit>)
        requires
            sep_fits(*self, mx as int, my as int),
        ensures
            match (r, sep_hit(*self, mx as int, my as int)) {
                (Some(h), Some((d, o, t, p))) => h.direction == d && h.origin == o && h.total == t
                    && h.path@ == p,
                (None, None) => true,
                _ => false,
            },
        decreases *self,
    {
        match self {
            SplitNode::Leaf(_) => None,
            SplitNode::Split { direction, left, right, .. } => {
                if self.on_own_separator_exec(mx, my) {
                    proof {
                        lemma_span_bounds(*self);
                    }
                    let (o, t) = match direction {
                        SplitDirection::Horizontal => self.horizontal_span(),
                        SplitDirection::Vertical => self.vertical_span(),
                    };
                    return Some(SeparatorHit { direction: *direction, origin: o, total: t, path: Vec::new() });
                }
                match left.separator_at(mx, my) {
                    Some(h) => {
                        let mut path: Vec<bool> = Vec::new();
                        path.push(false);
                        let mut rest = h.path;
                        path.append(&mut rest);
                        Some(SeparatorHit { direction: h.direction, origin: h.origin, total: h.total, path })
                    },
                    None => match right.separator_at(mx, my) {
                        Some(h) => {
                            let mut path: Vec<bool> = Vec::new();
                            path.push(true);
                            let mut rest = h.path;
                            path.append(&mut rest);
                            Some(SeparatorHit { direction: h.direction, origin: h.origin, total: h.total, path })
                        },
                        None => None,
                    },
                }
            },
        }
    }

    /// Sets the ratio of the split at `path` (clamped to
    /// [`RATIO_MIN`]..=[`RATIO_MAX`]); returns whether the path ended at a split.
    pub fn update_ratio_at(&mut self, path: &[bool], new_ratio: u16) -> (r: bool)
        ensures
            match set_ratio_spec(*old(self), path@, new_ratio) {
                Some(n) => r && *final(self) == n,
                None => !r && *final(self) == *old(self),
            },
        decreases path@.len(),
    {
        assert(path@.subrange(0, path@.len() as int) == path@);
        self.update_ratio_from(path, 0, new_ratio)
    }

    fn update_ratio_from(&mut self, path: &[bool], at: usize, new_ratio: u16) -> (r: bool)
        requires
            at <= path@.len(),
        ensures
            match set_ratio_spec(*old(self), path@.subrange(at as int, path@.len() as int), new_ratio) {
                Some(n) => r && *final(self) == n,
                None => !r && *final(self) == *old(self),
            },
        decreases path@.len() - at,
    {
        let ghost rest = path@.subrange(at as int, path@.len() as int);
        match self {
            SplitNode::Leaf(_) => false,
            SplitNode::Split { ratio, left, right, .. } => {
                if at == path.len() {
                    *ratio = if new_ratio < RATIO_MIN {
                        RATIO_MIN
                    } else if new_ratio > RATIO_MAX {
                        RATIO_MAX
                    } else {
                        new_ratio
                    };
                    return true;
                }
                assert(rest.drop_first() == path@.subrange(at as int + 1, path@.len() as int));
                assert(rest[0] == path@[at as int]);
                if !path[at] {
                    left.update_ratio_from(path, at + 1, new_ratio)
                } else {
                    right.update_ratio_from(path, at + 1, new_ratio)
                }
            },
        }
    }

    /// The separator lines to draw (see [`separators_spec`]).
    pub fn separators(&self) -> (r: Vec<PanelRect>)
        requires
            separators_fit(*self),
        ensures
            r@ == separators_spec(*self),
    {
        let mut out: Vec<PanelRect> = Vec::new();
        self.separators_into(&mut out);
        out
    }

    fn separators_into(&self, out: &mut Vec<PanelRect>)
        requires
            separators_fit(*self),
        ensures
            final(out)@ == old(out)@ + separators_spec(*self),
        decreases *self,
    {
        match self {
            SplitNode::Leaf(_) => {
                assert(old(out)@ + separators_spec(*self) =~= old(out)@);
            },
            SplitNode::Split { direction, left, right, .. } => {
                proof {
                    lemma_span_bounds(*self);
                }
                let own = match direction {
                    SplitDirection::Horizontal => {
                        let (sy, sh) = self.vertical_span();
                        PanelRect { x: left.right_edge(), y: sy, w: SEPARATOR_PX, h: sh }
                    },
                    SplitDirection::Vertical => {
                        let (sx, sw) = self.horizontal_span();
                        PanelRect { x: sx, y: left.bottom_edge(), w: sw, h: SEPARATOR_PX }
                    },
                };
                out.push(own);
                left.separators_into(out);
                right.separators_into(out);
                assert(final(out)@ =~= old(out)@ + separators_spec(*self));
            },
        }
    }
}

// ---------------------------------------------------------------------------
// Terminal size of a panel, and panel ids.
// ---------------------------------------------------------------------------

/// Rows or columns that fit: `extent / cell`, rounded toward zero, at
/// least 1, then narrowed to `u16` (keeping the low 16 bits).
pub open spec fn cells_fitting(extent: int, cell: int) -> u16 {
    let q = trunc_div(extent, cell);
    let m = if q > 1 {
        q
    } else {
        1
    };
    (m as i32) as u16
}

/// The panel's terminal size arithmetic stays within `i32` and divides by
/// non-zero cell sizes.
pub open spec fn term_size_fits(
    rect: PanelRect,
    pad: i32,
    minimap_width: i32,
    tab_bar_height: i32,
    cw: i32,
    ch: i32,
) -> bool {
    &&& in_i32(2 * pad)
    &&& in_i32(rect.w - 2 * pad)
    &&& in_i32(rect.w - 2 * pad - minimap_width)
    &&& in_i32(rect.h - tab_bar_height)
    &&& in_i32(rect.h - tab_bar_height - 2 * pad)
    &&& cw != 0
    &&& ch != 0
    &&& !(rect.w - 2 * pad - minimap_width == i32::MIN && cw == -1)
    &&& !(rect.h - tab_bar_height - 2 * pad == i32::MIN && ch == -1)
}

/// Quotient rounded toward zero of two `i32`.
fn div_trunc_i32(a: i32, b: i32) -> (r: i32)
    requires
        b != 0,
        !(a == i32::MIN && b == -1),
    ensures
        r == trunc_div(a as int, b as int),
{
    let (neg_divisor, m): (bool, i64) = if b > 0 {
        (false, b as i64)
    } else {
        (true, -(b as i64))
    };
    let q = div_toward_zero(a as i64, m);
    proof {
        let ai = a as int;
        let mi = m as int;
        if a >= 0 {
            assert(0 <= ai / mi <= ai) by (nonlinear_arith)
                requires
                    ai >= 0,
                    mi > 0,
            ;
        } else {
            assert(0 <= (-ai) / mi <= -ai) by (nonlinear_arith)
                requires
                    ai < 0,
                    mi > 0,
            ;
            if mi >= 2 {
                assert((-ai) / mi <= (-ai) / 2) by (nonlinear_arith)
                    requires
                        ai < 0,
                        mi >= 2,
                ;
            }
        }
        if neg_divisor {
            let bi = b as int;
            assert(mi == -bi);
            if a >= 0 {
                assert(ai / bi == -(ai / mi)) by (nonlinear_arith)
                    requires
                        mi == -bi,
                        mi > 0,
                        ai >= 0,
                ;
            } else {
                assert((-ai) / bi == -((-ai) / mi)) by (nonlinear_arith)
                    requires
                        mi == -bi,
                        mi > 0,
                        ai < 0,
                ;
            }
        }
    }
    if neg_divisor {
        let r: i64 = -q;
        r as i32
    } else {
        q as i32
    }
}

/// Columns and rows of the terminal in a panel: the width less padding on
/// both sides and the minimap, and the height less the tab bar and padding,
/// each divided by the cell size (see [`cells_fitting`]).
pub fn panel_term_size(
    rect: &PanelRect,
    pad: i32,
    minimap_width: i32,
    tab_bar_height: i32,
    cw: i32,
    ch: i32,
) -> (r: (u16, u16))
    requires
        term_size_fits(*rect, pad, minimap_width, tab_bar_height, cw, ch),
    ensures
        r.0 == cells_fitting(rect.w - 2 * pad - minimap_width, cw as int),
        r.1 == cells_fitting(rect.h - tab_bar_height - 2 * pad, ch as int),
{
    let cq = div_trunc_i32(rect.w - 2 * pad - minimap_width, cw);
    let rq = div_trunc_i32(rect.h - tab_bar_height - 2 * pad, ch);
    let cm = if cq > 1 {
        cq
    } else {
        1
    };
    let rm = if rq > 1 {
        rq
    } else {
        1
    };
    (cm as u16, rm as u16)
}

/// The area of the panels: right of the sidebar, above the status bar.
pub fn workspace_rect(screen_w: i32, screen_h: i32, status_bar_height: i32, sidebar_w: i32) -> (r: PanelRect)
    requires
        in_i32(screen_w - sidebar_w),
        in_i32(screen_h - status_bar_height),
    ensures
        r == (PanelRect {
            x: sidebar_w,
            y: 0,
            w: (screen_w - sidebar_w) as i32,
            h: (screen_h - status_bar_height) as i32,
        }),
{
    PanelRect { x: sidebar_w, y: 0, w: screen_w - sidebar_w, h: screen_h - status_bar_height }
}

/// Every panel's terminal size fits the arithmetic of [`panel_term_size`].
pub open spec fn sizes_fit<T>(n: SplitNode<T>, pad: i32, minimap_width: i32, cw: i32, ch: i32) -> bool
    decreases n,
{
    match n {
        SplitNode::Leaf(p) => term_size_fits(p.rect, pad, minimap_width, p.tab_bar.height, cw, ch),
        SplitNode::Split { left, right, .. } => sizes_fit(*left, pad, minimap_width, cw, ch) && sizes_fit(
            *right,
            pad,
            minimap_width,
            cw,
            ch,
        ),
    }
}

/// Each panel's id with the columns and rows of its terminal, left to right.
pub open spec fn sizes_spec<T>(n: SplitNode<T>, pad: i32, minimap_width: i32, cw: i32, ch: i32) -> Seq<
    (u32, u16, u16),
>
    decreases n,
{
    match n {
        SplitNode::Leaf(p) => seq![
            (
                p.id,
                cells_fitting(p.rect.w - 2 * pad - minimap_width, cw as int),
                cells_fitting(p.rect.h - p.tab_bar.height - 2 * pad, ch as int),
            ),
        ],
        SplitNode::Split { left, right, .. } => sizes_spec(*left, pad, minimap_width, cw, ch) + sizes_spec(
            *right,
            pad,
            minimap_width,
            cw,
            ch,
        ),
    }
}

impl<T> SplitNode<T> {
    /// The size of each panel's terminal after a layout, as [`sizes_spec`]:
    /// what the tabs of each panel are resized to.
    pub fn panel_sizes(&self, pad: i32, minimap_width: i32, cw: i32, ch: i32) -> (r: Vec<(u32, u16, u16)>)
        requires
            sizes_fit(*self, pad, minimap_width, cw, ch),
        ensures
            r@ == sizes_spec(*self, pad, minimap_width, cw, ch),
    {
        let mut out: Vec<(u32, u16, u16)> = Vec::new();
        self.panel_sizes_into(pad, minimap_width, cw, ch, &mut out);
        out
    }

    fn panel_sizes_into(&self, pad: i32, minimap_width: i32, cw: i32, ch: i32, out: &mut Vec<(u32, u16, u16)>)
        requires
            sizes_fit(*self, pad, minimap_width, cw, ch),
        ensures
            final(out)@ == old(out)@ + sizes_spec(*self, pad, minimap_width, cw, ch),
        decreases *self,
    {
        match self {
            SplitNode::Leaf(p) => {
                let (cols, rows) = panel_term_size(&p.rect, pad, minimap_width, p.tab_bar.height, cw, ch);
                out.push((p.id, cols, rows));
            },
            SplitNode::Split { left, right, .. } => {
                let ghost o = out@;
                left.panel_sizes_into(pad, minimap_width, cw, ch, out);
                right.panel_sizes_into(pad, minimap_width, cw, ch, out);
                assert(out@ =~= o + sizes_spec(*self, pad, minimap_width, cw, ch));
            },
        }
    }
}

/// Takes the next panel id from the counter.
pub fn alloc_panel_id(counter: &mut u32) -> (id: u32)
    requires
        *old(counter) < u32::MAX,
    ensures
        id == *old(counter),
        *final(counter) == *old(counter) + 1,
{
    let id = *counter;
    *counter = *counter + 1;
    id
}


// ---------------------------------------------------------------------------
// Laws of the split tree.
// ---------------------------------------------------------------------------

/// Index of the first occurrence of `x` in `s` (`s.len()` when absent).
pub open spec fn first_index(s: Seq<u32>, x: u32) -> int
    decreases s.len(),
{
    if s.len() == 0 {
        0
    } else if s[0] == x {
        0
    } else {
        1 + first_index(s.drop_first(), x)
    }
}

proof fn lemma_first_index(s: Seq<u32>, x: u32)
    ensures
        0 <= first_index(s, x) <= s.len(),
        s.contains(x) <==> first_index(s, x) < s.len(),
        first_index(s, x) < s.len() ==> s[first_index(s, x)] == x,
    decreases s.len(),
{
    if s.len() > 0 {
        lemma_first_index(s.drop_first(), x);
        if s[0] != x {
            if s.contains(x) {
                let i = choose|i: int| 0 <= i < s.len() && s[i] == x;
                assert(s.drop_first()[i - 1] == x);
            }
            if s.drop_first().contains(x) {
                let i = choose|i: int| 0 <= i < s.drop_first().len() && s.drop_first()[i] == x;
                assert(s[i + 1] == x);
            }
        } else {
            assert(s[0] == x);
        }
    }
}

proof fn lemma_first_index_concat(a: Seq<u32>, b: Seq<u32>, x: u32)
    ensures
        a.contains(x) ==> first_index(a + b, x) == first_index(a, x),
        !a.contains(x) ==> first_index(a + b, x) == a.len() + first_index(b, x),
    decreases a.len(),
{
    if a.len() > 0 {
        lemma_first_index_concat(a.drop_first(), b, x);
        assert((a + b).drop_first() == a.drop_first() + b);
        if a[0] != x {
            if a.contains(x) {
                let i = choose|i: int| 0 <= i < a.len() && a[i] == x;
                assert(a.drop_first()[i - 1] == x);
            }
            if a.drop_first().contains(x) {
                let i = choose|i: int| 0 <= i < a.drop_first().len() && a.drop_first()[i] == x;
                assert(a[i + 1] == x);
            }
        }
    } else {
        assert(a + b == b);
    }
}

/// Splitting a panel adds the new panel's id right after the first
/// occurrence of the split panel's id, and changes nothing else; splitting
/// a panel that is not there changes nothing.
pub proof fn lemma_split_adds_panel<T>(n: SplitNode<T>, id: u32, d: SplitDirection, new_panel: Panel<T>)
    ensures
        leaves(n).contains(id) ==> leaves(split_spec(n, id, d, new_panel)) == leaves(n).insert(
            first_index(leaves(n), id) + 1,
            new_panel.id,
        ),
        !leaves(n).contains(id) ==> split_spec(n, id, d, new_panel) == n,
    decreases n,
{
    lemma_first_index(leaves(n), id);
    match n {
        SplitNode::Leaf(p) => {
            if p.id == id {
                assert(leaves(n)[0] == id);
                let sp = split_spec(n, id, d, new_panel);
                assert(leaves(SplitNode::<T>::Leaf(p)) == seq![p.id]);
                assert(leaves(SplitNode::<T>::Leaf(new_panel)) == seq![new_panel.id]);
                assert(leaves(sp) == seq![p.id] + seq![new_panel.id]);
                assert(leaves(sp) =~= leaves(n).insert(1, new_panel.id));
            } else {
                assert(!leaves(n).contains(id)) by {
                    if leaves(n).contains(id) {
                        let i = choose|i: int| 0 <= i < leaves(n).len() && leaves(n)[i] == id;
                        assert(leaves(n)[0] == p.id);
                    }
                }
            }
        },
        SplitNode::Split { direction, ratio, left, right } => {
            lemma_split_adds_panel(*left, id, d, new_panel);
            lemma_split_adds_panel(*right, id, d, new_panel);
            lemma_contains_concat(leaves(*left), leaves(*right), id);
            lemma_first_index_concat(leaves(*left), leaves(*right), id);
            lemma_first_index(leaves(*left), id);
            lemma_first_index(leaves(*right), id);
            let ls = leaves(*left);
            let rs = leaves(*right);
            if ls.contains(id) {
                let k = first_index(ls, id);
                assert(ls.insert(k + 1, new_panel.id) + rs =~= (ls + rs).insert(k + 1, new_panel.id));
            } else if rs.contains(id) {
                let k = first_index(rs, id);
                assert(ls + rs.insert(k + 1, new_panel.id) =~= (ls + rs).insert(
                    ls.len() + k + 1,
                    new_panel.id,
                ));
            }
        },
    }
}

/// Closing finds nothing in a tree without a panel of that id.
pub proof fn lemma_close_absent<T>(n: SplitNode<T>, id: u32)
    ensures
        !leaves(n).contains(id) ==> close_spec(n, id) == (n, false),
    decreases n,
{
    if let SplitNode::Split { left, right, .. } = n {
        lemma_close_absent(*left, id);
        lemma_close_absent(*right, id);
        lemma_contains_concat(leaves(*left), leaves(*right), id);
        if !leaves(n).contains(id) {
            if is_leaf_with(*left, id) {
                assert(leaves(*left)[0] == id);
            }
            if is_leaf_with(*right, id) {
                assert(leaves(*right)[0] == id);
            }
        }
    }
}

/// Closing a panel removes exactly one occurrence of its id.
pub proof fn lemma_close_removes_panel<T>(n: SplitNode<T>, id: u32)
    ensures
        close_spec(n, id).1 ==> exists|k: int|
            0 <= k < leaves(n).len() && leaves(n)[k] == id && leaves(close_spec(n, id).0)
                == leaves(n).remove(k),
    decreases n,
{
    if let SplitNode::Split { direction, ratio, left, right } = n {
        let ls = leaves(*left);
        let rs = leaves(*right);
        if is_leaf_with(*left, id) {
            assert(ls == seq![id]);
            assert(leaves(n)[0] == id);
            assert(leaves(n).remove(0) =~= rs);
        } else if is_leaf_with(*right, id) {
            assert(rs == seq![id]);
            assert(leaves(n)[ls.len() as int] == id);
            assert(leaves(n).remove(ls.len() as int) =~= ls);
        } else {
            lemma_close_removes_panel(*left, id);
            lemma_close_removes_panel(*right, id);
            let (nl, bl) = close_spec(*left, id);
            if bl {
                let k = choose|k: int|
                    0 <= k < ls.len() && ls[k] == id && leaves(nl) == ls.remove(k);
                assert(leaves(n)[k] == id);
                assert(leaves(close_spec(n, id).0) =~= leaves(n).remove(k));
            } else {
                let (nr, br) = close_spec(*right, id);
                if br {
                    let k = choose|k: int|
                        0 <= k < rs.len() && rs[k] == id && leaves(nr) == rs.remove(k);
                    assert(leaves(n)[ls.len() + k] == id);
                    assert(leaves(close_spec(n, id).0) =~= leaves(n).remove(ls.len() + k));
                }
            }
        }
    }
}

/// Closing the panel that a split just added gives back the tree as it
/// was before the split, when the new panel's id was not in the tree.
pub proof fn lemma_close_undoes_split<T>(n: SplitNode<T>, id: u32, d: SplitDirection, new_panel: Panel<T>)
    requires
        leaves(n).contains(id),
        !leaves(n).contains(new_panel.id),
    ensures
        close_spec(split_spec(n, id, d, new_panel), new_panel.id) == (n, true),
    decreases n,
{
    let nid = new_panel.id;
    match n {
        SplitNode::Leaf(p) => {
            assert(leaves(n)[0] == p.id);
            if p.id != id {
                assert(!leaves(n).contains(id)) by {
                    if leaves(n).contains(id) {
                        let i = choose|i: int| 0 <= i < leaves(n).len() && leaves(n)[i] == id;
                    }
                }
            }
            assert(p.id != nid) by {
                assert(leaves(n)[0] == p.id);
            }
        },
        SplitNode::Split { direction, ratio, left, right } => {
            lemma_contains_concat(leaves(*left), leaves(*right), id);
            lemma_contains_concat(leaves(*left), leaves(*right), nid);
            if leaves(*left).contains(id) {
                lemma_close_undoes_split(*left, id, d, new_panel);
                let sl = split_spec(*left, id, d, new_panel);
                assert(!is_leaf_with(sl, nid)) by {
                    if let SplitNode::Leaf(q) = *left {
                    } else {
                    }
                }
                assert(!is_leaf_with(*right, nid)) by {
                    if is_leaf_with(*right, nid) {
                        assert(leaves(*right)[0] == nid);
                    }
                }
            } else {
                lemma_close_undoes_split(*right, id, d, new_panel);
                lemma_close_absent(*left, nid);
                assert(!is_leaf_with(*left, nid)) by {
                    if is_leaf_with(*left, nid) {
                        assert(leaves(*left)[0] == nid);
                    }
                }
                let sr = split_spec(*right, id, d, new_panel);
                assert(!is_leaf_with(sr, nid)) by {
                    if let SplitNode::Leaf(q) = *right {
                    } else {
                    }
                }
            }
        },
    }
}

/// The tree with every panel's area cleared: what layout leaves alone.
pub open spec fn without_rects<T>(n: SplitNode<T>) -> SplitNode<T>
    decreases n,
{
    match n {
        SplitNode::Leaf(p) => SplitNode::Leaf(Panel { rect: PanelRect { x: 0, y: 0, w: 0, h: 0 }, ..p }),
        SplitNode::Split { direction, ratio, left, right } => SplitNode::Split {
            direction,
            ratio,
            left: Box::new(without_rects(*left)),
            right: Box::new(without_rects(*right)),
        },
    }
}

/// Layout changes only the panels' areas: ids, tabs, tab bars, directions
/// and ratios stay as they were.
pub proof fn lemma_layout_keeps_panels<T>(n: SplitNode<T>, r: PanelRect)
    ensures
        without_rects(layout_spec(n, r)) == without_rects(n),
        leaves(layout_spec(n, r)) == leaves(n),
    decreases n,
{
    if let SplitNode::Split { direction, ratio, left, right } = n {
        let (lr, rr) = child_rects(direction, ratio as int, r);
        lemma_layout_keeps_panels(*left, lr);
        lemma_layout_keeps_panels(*right, rr);
    }
}

/// The two children of a split share its area with the separator between
/// them: side by side for a horizontal split, one above the other for a
/// vertical one.
pub proof fn lemma_child_rects_partition(d: SplitDirection, ratio: u16, r: PanelRect)
    requires
        split_fits(d, ratio as int, r),
    ensures
        ({
            let (a, b) = child_rects(d, ratio as int, r);
            match d {
                SplitDirection::Horizontal => a.x == r.x && a.w + SEPARATOR_PX + b.w == r.w && b.x
                    == a.x + a.w + SEPARATOR_PX && a.y == r.y && b.y == r.y && a.h == r.h && b.h == r.h,
                SplitDirection::Vertical => a.y == r.y && a.h + SEPARATOR_PX + b.h == r.h && b.y
                    == a.y + a.h + SEPARATOR_PX && a.x == r.x && b.x == r.x && a.w == r.w && b.w == r.w,
            }
        }),
{
}

} // verus!
