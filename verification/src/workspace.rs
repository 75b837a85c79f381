//! Workspaces: named trees of panels, one of them active, listed in a
//! sidebar of adjustable width.
use vstd::prelude::*;

use crate::split::{find_panel, leaves, split_spec, Panel, PanelRect, SplitDirection, SplitNode};
use crate::terminal::ssh::SshTabInfo;
use crate::text::{dec_spec, push_decimal};

verus! {

/// Width of the sidebar unless the session says otherwise.
pub const SIDEBAR_DEFAULT_WIDTH: i32 = 200;

/// Narrowest the sidebar can be.
pub const SIDEBAR_MIN_WIDTH: i32 = 120;

/// Widest the sidebar can be.
pub const SIDEBAR_MAX_WIDTH: i32 = 400;

/// Height of one workspace's row in the sidebar.
pub const ROW_HEIGHT: i32 = 56;

/// Height of the buttons at the bottom of the sidebar.
pub const SIDEBAR_BUTTON_HEIGHT: i32 = 36;

/// A named tree of panels, with the panel that has the focus and the next
/// panel id to hand out; a workspace may belong to a remote host.
pub struct Workspace<T> {
    pub name: String,
    pub root: SplitNode<T>,
    pub focused_panel_id: u32,
    pub next_panel_id: u32,
    pub ssh_info: Option<SshTabInfo>,
    pub ssh_password: String,
}

/// Number of tabs of the panels, in left-to-right order.
pub open spec fn tab_total<T>(n: SplitNode<T>) -> nat
    decreases n,
{
    match n {
        SplitNode::Leaf(p) => p.tabs@.len(),
        SplitNode::Split { left, right, .. } => tab_total(*left) + tab_total(*right),
    }
}

fn tab_count_of<T>(n: &SplitNode<T>) -> (r: usize)
    requires
        tab_total(*n) <= usize::MAX,
    ensures
        r == tab_total(*n),
    decreases *n,
{
    match n {
        SplitNode::Leaf(p) => p.tabs.len(),
        SplitNode::Split { left, right, .. } => tab_count_of(left) + tab_count_of(right),
    }
}

/// The area a panel split off `r` along `d` gets before the layout: half
/// of its width, or of its height.
pub open spec fn half_area(r: PanelRect, d: SplitDirection) -> PanelRect {
    match d {
        SplitDirection::Horizontal => PanelRect {
            x: 0,
            y: 0,
            w: crate::tab_bar::trunc_div(r.w as int, 2) as i32,
            h: r.h,
        },
        SplitDirection::Vertical => PanelRect {
            x: 0,
            y: 0,
            w: r.w,
            h: crate::tab_bar::trunc_div(r.h as int, 2) as i32,
        },
    }
}

impl<T> Workspace<T> {
    /// The area the panel split off the focused one along `d` gets, with
    /// the focused panel's tab bar height; nothing when no panel has the
    /// focus.
    pub fn split_area(&self, d: SplitDirection) -> (r: Option<(PanelRect, i32)>)
        ensures
            match find_panel(self.root, self.focused_panel_id) {
                Some(p) => r == Some((
                    half_area(p.rect, d),
                    p.tab_bar.height,
                )),
                None => r is None,
            },
    {
        match self.root.panel_by_id(self.focused_panel_id) {
            Some(p) => {
                let r = p.rect;
                let half = match d {
                    SplitDirection::Horizontal => PanelRect {
                        x: 0,
                        y: 0,
                        w: crate::tab_bar::div_toward_zero(r.w as i64, 2) as i32,
                        h: r.h,
                    },
                    SplitDirection::Vertical => PanelRect {
                        x: 0,
                        y: 0,
                        w: r.w,
                        h: crate::tab_bar::div_toward_zero(r.h as i64, 2) as i32,
                    },
                };
                Some((half, p.tab_bar.height))
            },
            None => None,
        }
    }

    /// Splits the focused panel along `d`, `panel` taking the second half,
    /// and gives `panel` the focus.
    pub fn attach_split(&mut self, d: SplitDirection, panel: Panel<T>)
        ensures
            final(self).root == split_spec(old(self).root, old(self).focused_panel_id, d, panel),
            final(self).focused_panel_id == panel.id,
            final(self).next_panel_id == old(self).next_panel_id,
            final(self).name == old(self).name,
            final(self).ssh_info == old(self).ssh_info,
            final(self).ssh_password == old(self).ssh_password,
    {
        let id = panel.id;
        let focused = self.focused_panel_id;
        self.root.split_panel(focused, d, panel);
        self.focused_panel_id = id;
    }
}

impl<T> Workspace<T> {
    /// Number of panels.
    pub fn panel_count(&self) -> (r: usize)
        ensures
            r == leaves(self.root).len(),
    {
        self.root.panel_count()
    }

    /// Number of tabs over all panels.
    pub fn total_tab_count(&self) -> (r: usize)
        requires
            tab_total(self.root) <= usize::MAX,
        ensures
            r == tab_total(self.root),
    {
        tab_count_of(&self.root)
    }
}

/// The workspaces, the index of the active one, and the sidebar's state.
pub struct WorkspaceManager<T> {
    pub workspaces: Vec<Workspace<T>>,
    pub active: usize,
    pub sidebar_visible: bool,
    pub sidebar_scroll: i32,
    pub sidebar_width_px: i32,
    pub next_workspace_id: u32,
    pub renaming: Option<usize>,
    pub rename_buf: String,
    pub context_menu: Option<(usize, i32, i32)>,
}

/// `"workspace "` followed by the number.
pub open spec fn workspace_name_spec(id: nat) -> Seq<char> {
    seq!['w', 'o', 'r', 'k', 's', 'p', 'a', 'c', 'e', ' '] + dec_spec(id)
}

/// `v` kept between `lo` and `hi`, as `max(lo)` followed by `min(hi)`.
pub open spec fn clamp_spec(v: int, lo: int, hi: int) -> int {
    let a = if v > lo {
        v
    } else {
        lo
    };
    if a < hi {
        a
    } else {
        hi
    }
}

/// The active workspace on restore from a saved index, over `count`
/// workspaces: the saved one, or the last when it is past the end.
pub open spec fn restored_active(active: int, count: int) -> int {
    if count == 0 {
        0
    } else if active < count - 1 {
        active
    } else {
        count - 1
    }
}

/// What a session keeps of the manager comes back when it is restored
/// over as many workspaces: the active workspace, and the sidebar's width
/// when it lies within the sidebar's limits, as a drag leaves it.
pub proof fn lemma_restore_keeps_active_and_width(active: int, count: int, width: int)
    requires
        0 <= active < count,
        SIDEBAR_MIN_WIDTH <= width <= SIDEBAR_MAX_WIDTH,
    ensures
        restored_active(active, count) == active,
        clamp_spec(width, SIDEBAR_MIN_WIDTH as int, SIDEBAR_MAX_WIDTH as int) == width,
{
}


impl<T> WorkspaceManager<T> {
    /// There is at least one workspace and the active index names one.
    pub open spec fn valid(&self) -> bool {
        self.workspaces@.len() > 0 && self.active < self.workspaces@.len()
    }

    /// The id that the next generated name will carry.
    pub open spec fn next_id(&self) -> u32 {
        self.next_workspace_id
    }

    /// One workspace, active, with the sidebar shown at its default width.
    pub fn new(initial: Workspace<T>) -> (r: Self)
        ensures
            r.workspaces@ == seq![initial],
            r.active == 0,
            r.sidebar_visible,
            r.sidebar_scroll == 0,
            r.sidebar_width_px == SIDEBAR_DEFAULT_WIDTH,
            r.next_id() == 1,
            r.renaming is None,
            r.rename_buf@ == Seq::<char>::empty(),
            r.context_menu is None,
            r.valid(),
    {
        let mut workspaces = Vec::new();
        workspaces.push(initial);
        WorkspaceManager {
            workspaces,
            active: 0,
            sidebar_visible: true,
            sidebar_scroll: 0,
            sidebar_width_px: SIDEBAR_DEFAULT_WIDTH,
            next_workspace_id: 1,
            renaming: None,
            rename_buf: String::new(),
            context_menu: None,
        }
    }

    /// The active workspace.
    pub fn active(&self) -> (r: &Workspace<T>)
        requires
            self.valid(),
        ensures
            *r == self.workspaces@[self.active as int],
    {
        &self.workspaces[self.active]
    }

    /// The active workspace, for changing it.
    pub fn active_mut(&mut self) -> (r: &mut Workspace<T>)
        requires
            old(self).valid(),
        ensures
            *r == old(self).workspaces@[old(self).active as int],
            final(self).workspaces@ == old(self).workspaces@.update(
                old(self).active as int,
                *final(r),
            ),
            final(self).active == old(self).active,
            final(self).sidebar_visible == old(self).sidebar_visible,
            final(self).sidebar_width_px == old(self).sidebar_width_px,
            final(self).next_id() == old(self).next_id(),
    {
        &mut self.workspaces[self.active]
    }

    /// Width the sidebar takes: its width when shown, otherwise nothing.
    pub fn sidebar_width(&self) -> (r: i32)
        ensures
            r == (if self.sidebar_visible { self.sidebar_width_px } else { 0 }),
    {
        if self.sidebar_visible {
            self.sidebar_width_px
        } else {
            0
        }
    }

    /// A fresh name, `"workspace N"`, with N counting up from 1.
    pub fn next_name(&mut self) -> (r: String)
        requires
            old(self).next_id() < u32::MAX,
        ensures
            r@ == workspace_name_spec(old(self).next_id() as nat),
            final(self).next_id() == old(self).next_id() + 1,
            final(self).workspaces == old(self).workspaces,
            final(self).active == old(self).active,
            final(self).sidebar_visible == old(self).sidebar_visible,
            final(self).sidebar_width_px == old(self).sidebar_width_px,
    {
        let id = self.next_workspace_id;
        self.next_workspace_id = self.next_workspace_id + 1;
        let mut s = String::new();
        s.push_str("workspace ");
        proof {
            reveal_strlit("workspace ");
        }
        push_decimal(&mut s, id as u64);
        s
    }

    /// Adds a workspace at the end and makes it active.
    pub fn add(&mut self, ws: Workspace<T>)
        ensures
            final(self).workspaces@ == old(self).workspaces@.push(ws),
            final(self).active == old(self).workspaces@.len(),
            final(self).sidebar_visible == old(self).sidebar_visible,
            final(self).sidebar_width_px == old(self).sidebar_width_px,
            final(self).next_id() == old(self).next_id(),
            final(self).valid(),
    {
        self.workspaces.push(ws);
        self.active = self.workspaces.len() - 1;
    }

    /// Removes a workspace. An active workspace after the removed one moves
    /// down with it; otherwise the index stays, limited to the last one.
    pub fn remove(&mut self, idx: usize)
        requires
            idx < old(self).workspaces@.len(),
        ensures
            final(self).workspaces@ == old(self).workspaces@.remove(idx as int),
            final(self).active == (if idx < old(self).active {
                old(self).active - 1
            } else if old(self).active >= old(self).workspaces@.len() - 1 {
                if old(self).workspaces@.len() - 1 > 0 {
                    old(self).workspaces@.len() - 2
                } else {
                    0
                }
            } else {
                old(self).active as int
            }),
            final(self).sidebar_visible == old(self).sidebar_visible,
            final(self).sidebar_width_px == old(self).sidebar_width_px,
            final(self).next_id() == old(self).next_id(),
    {
        self.workspaces.remove(idx);
        if idx < self.active {
            self.active -= 1;
        } else if self.active >= self.workspaces.len() {
            self.active = self.workspaces.len().saturating_sub(1);
        }
    }

    /// Makes the workspace at `idx` active, when there is one.
    pub fn switch_to(&mut self, idx: usize)
        ensures
            final(self).active == (if idx < old(self).workspaces@.len() {
                idx
            } else {
                old(self).active
            }),
            final(self).workspaces == old(self).workspaces,
            final(self).sidebar_visible == old(self).sidebar_visible,
            final(self).sidebar_width_px == old(self).sidebar_width_px,
            final(self).next_id() == old(self).next_id(),
    {
        if idx < self.workspaces.len() {
            self.active = idx;
        }
    }

    /// Makes the next workspace active, wrapping from the last to the first.
    pub fn next(&mut self)
        requires
            old(self).workspaces@.len() > 0 ==> old(self).active < usize::MAX,
        ensures
            final(self).active == (if old(self).workspaces@.len() > 0 {
                ((old(self).active + 1) % (old(self).workspaces@.len() as int)) as usize
            } else {
                old(self).active
            }),
            final(self).workspaces == old(self).workspaces,
            final(self).sidebar_visible == old(self).sidebar_visible,
            final(self).sidebar_width_px == old(self).sidebar_width_px,
            final(self).next_id() == old(self).next_id(),
    {
        if self.workspaces.len() > 0 {
            self.active = (self.active + 1) % self.workspaces.len();
        }
    }

    /// Makes the previous workspace active, wrapping from the first to the last.
    pub fn prev(&mut self)
        ensures
            final(self).active == (if old(self).workspaces@.len() > 0 {
                if old(self).active == 0 {
                    (old(self).workspaces@.len() - 1) as usize
                } else {
                    (old(self).active - 1) as usize
                }
            } else {
                old(self).active
            }),
            final(self).workspaces == old(self).workspaces,
            final(self).sidebar_visible == old(self).sidebar_visible,
            final(self).sidebar_width_px == old(self).sidebar_width_px,
            final(self).next_id() == old(self).next_id(),
    {
        if self.workspaces.len() > 0 {
            self.active = if self.active == 0 {
                self.workspaces.len() - 1
            } else {
                self.active - 1
            };
        }
    }

    /// A manager for restored workspaces: the active index limited to the
    /// last workspace, and the sidebar width to
    /// [`SIDEBAR_MIN_WIDTH`]..=[`SIDEBAR_MAX_WIDTH`].
    pub fn from_restored(
        workspaces: Vec<Workspace<T>>,
        active: usize,
        sidebar_visible: bool,
        sidebar_width_px: i32,
        next_workspace_id: u32,
    ) -> (r: Self)
        ensures
            r.workspaces@ == workspaces@,
            r.active == restored_active(active as int, workspaces@.len() as int),
            r.sidebar_visible == sidebar_visible,
            r.sidebar_scroll == 0,
            r.sidebar_width_px == clamp_spec(
                sidebar_width_px as int,
                SIDEBAR_MIN_WIDTH as int,
                SIDEBAR_MAX_WIDTH as int,
            ),
            r.next_id() == next_workspace_id,
            r.renaming is None,
            r.rename_buf@ == Seq::<char>::empty(),
            r.context_menu is None,
            workspaces@.len() > 0 ==> r.valid(),
    {
        let last = workspaces.len().saturating_sub(1);
        let a = if active < last {
            active
        } else {
            last
        };
        let w1 = if sidebar_width_px > SIDEBAR_MIN_WIDTH {
            sidebar_width_px
        } else {
            SIDEBAR_MIN_WIDTH
        };
        let w2 = if w1 < SIDEBAR_MAX_WIDTH {
            w1
        } else {
            SIDEBAR_MAX_WIDTH
        };
        WorkspaceManager {
            active: a,
            workspaces,
            sidebar_visible,
            sidebar_scroll: 0,
            sidebar_width_px: w2,
            next_workspace_id,
            renaming: None,
            rename_buf: String::new(),
            context_menu: None,
        }
    }
}

/// How far the sidebar's list can scroll: the rows' height beyond the
/// screen less the button, at least 0.
pub open spec fn max_sidebar_scroll(count: int, screen_h: int) -> int {
    let m = count * ROW_HEIGHT - screen_h + SIDEBAR_BUTTON_HEIGHT;
    if m > 0 {
        m
    } else {
        0
    }
}

/// Width of the context menu.
pub const MENU_WIDTH: i32 = 140;

/// Height of an item of the context menu.
pub const MENU_ITEM_HEIGHT: i32 = 28;

/// How near the sidebar's edge, in pixels, a press grabs it.
pub const SIDEBAR_EDGE_HIT: i32 = 4;

/// What a left click in the sidebar hits.
#[derive(Clone, Copy, Debug, PartialEq, Eq, Structural)]
pub enum SidebarHit {
    /// The button that adds a workspace.
    NewWorkspace,
    /// The row of a workspace.
    Row(usize),
    /// Below the rows.
    Nothing,
}

/// What a click on the open context menu did.
#[derive(Clone, Copy, Debug, PartialEq, Eq, Structural)]
pub enum MenuClick {
    /// No menu is open any more: the click goes on to the sidebar.
    Passed,
    /// Renaming started.
    Rename,
    /// The workspace at the index is to be closed.
    Close(usize),
    /// The menu closed.
    Closed,
    /// The click was in the menu, off its items.
    Kept,
}

/// The workspace's row under `my`, with the list scrolled by `scroll`.
pub open spec fn row_at(my: int, scroll: int, count: int) -> Option<usize> {
    let q = crate::tab_bar::trunc_div(my + scroll, ROW_HEIGHT as int);
    if 0 <= q < count {
        Some(q as usize)
    } else {
        None
    }
}

/// The item of the context menu at `(cmx, cmy)` under a click: 0 to rename,
/// 1 to close.
pub open spec fn menu_item_at(mx: int, my: int, cmx: int, cmy: int) -> Option<int> {
    if mx >= cmx && mx < cmx + MENU_WIDTH && my >= cmy && my < cmy + MENU_ITEM_HEIGHT * 2 {
        Some(crate::tab_bar::trunc_div(my - cmy, MENU_ITEM_HEIGHT as int))
    } else {
        None
    }
}

/// The click lies in the context menu at `(cmx, cmy)`.
pub open spec fn in_menu(mx: int, my: int, cmx: int, cmy: int) -> bool {
    mx >= cmx && mx < cmx + MENU_WIDTH && my >= cmy && my < cmy + 64
}

/// A line about a workspace under its name: `N panel(s) · M tab(s)`, after
/// `SSH · ` for a remote workspace.
pub open spec fn workspace_info_spec(panels: nat, tabs: nat, ssh: bool) -> Seq<char> {
    (if ssh {
        "SSH \u{00b7} "@
    } else {
        Seq::empty()
    }) + crate::text::dec_spec(panels) + " panel"@ + (if panels != 1 {
        "s"@
    } else {
        Seq::empty()
    }) + " \u{00b7} "@ + crate::text::dec_spec(tabs) + " tab"@ + if tabs != 1 {
        "s"@
    } else {
        Seq::empty()
    }
}

/// [`workspace_info_spec`].
pub fn workspace_info(panels: usize, tabs: usize, ssh: bool) -> (r: String)
    ensures
        r@ == workspace_info_spec(panels as nat, tabs as nat, ssh),
{
    let mut s = String::new();
    if ssh {
        s.push_str("SSH \u{00b7} ");
    }
    push_decimal(&mut s, panels as u64);
    s.push_str(" panel");
    if panels != 1 {
        s.push_str("s");
    }
    s.push_str(" \u{00b7} ");
    push_decimal(&mut s, tabs as u64);
    s.push_str(" tab");
    if tabs != 1 {
        s.push_str("s");
    }
    s
}

/// The name shown in the sidebar: its first 22 characters.
pub fn shown_name(name: &str) -> (r: String)
    ensures
        r@ == if name@.len() > 22 {
            name@.subrange(0, 22)
        } else {
            name@
        },
{
    let v = crate::text::chars_of(name);
    let n = if v.len() > 22 {
        22
    } else {
        v.len()
    };
    crate::text::string_of_range(&v, 0, n)
}

impl<T> WorkspaceManager<T> {
    /// Scrolls the sidebar by the wheel: a row per notch, kept between 0
    /// and [`max_sidebar_scroll`].
    pub fn scroll_sidebar(&mut self, wheel: i32, screen_h: i32)
        requires
            old(self).workspaces@.len() * ROW_HEIGHT <= i32::MAX,
            i32::MIN <= old(self).workspaces@.len() * ROW_HEIGHT - screen_h + SIDEBAR_BUTTON_HEIGHT <= i32::MAX,
            i32::MIN <= old(self).sidebar_scroll - wheel * ROW_HEIGHT <= i32::MAX,
        ensures
            ({
                let v = old(self).sidebar_scroll - wheel * ROW_HEIGHT;
                let lo = if v > 0 {
                    v
                } else {
                    0
                };
                let m = max_sidebar_scroll(old(self).workspaces@.len() as int, screen_h as int);
                final(self).sidebar_scroll == if lo < m {
                    lo
                } else {
                    m
                }
            }),
            final(self).workspaces == old(self).workspaces,
            final(self).active == old(self).active,
    {
        let n = self.workspaces.len();
        let rows: i128 = (n as i128) * (ROW_HEIGHT as i128);
        let m0: i128 = rows - screen_h as i128 + SIDEBAR_BUTTON_HEIGHT as i128;
        let m: i128 = if m0 > 0 {
            m0
        } else {
            0
        };
        let v: i128 = self.sidebar_scroll as i128 - (wheel as i128) * (ROW_HEIGHT as i128);
        let lo: i128 = if v > 0 {
            v
        } else {
            0
        };
        let r: i128 = if lo < m {
            lo
        } else {
            m
        };
        self.sidebar_scroll = r as i32;
    }

    /// What a left click at height `my` in the sidebar hits on a screen of
    /// height `screen_h`: the new-workspace button at the bottom, else the
    /// row of a workspace.
    pub fn sidebar_hit(&self, my: i32, screen_h: i32) -> (r: SidebarHit)
        ensures
            r == if my >= screen_h - SIDEBAR_BUTTON_HEIGHT {
                SidebarHit::NewWorkspace
            } else {
                match row_at(my as int, self.sidebar_scroll as int, self.workspaces@.len() as int) {
                    Some(i) => SidebarHit::Row(i),
                    None => SidebarHit::Nothing,
                }
            },
    {
        if my as i64 >= screen_h as i64 - SIDEBAR_BUTTON_HEIGHT as i64 {
            return SidebarHit::NewWorkspace;
        }
        match self.row_under(my) {
            Some(i) => SidebarHit::Row(i),
            None => SidebarHit::Nothing,
        }
    }

    /// The workspace's row under `my` (see [`row_at`]).
    pub fn row_under(&self, my: i32) -> (r: Option<usize>)
        ensures
            r == row_at(my as int, self.sidebar_scroll as int, self.workspaces@.len() as int),
    {
        let q = crate::tab_bar::div_toward_zero(my as i64 + self.sidebar_scroll as i64, ROW_HEIGHT as i64);
        if q >= 0 && (q as u64) < (self.workspaces.len() as u64) {
            Some(q as usize)
        } else {
            None
        }
    }

    /// The press is on the sidebar's edge, where it can be dragged.
    pub fn on_sidebar_edge(&self, mx: i32) -> (r: bool)
        ensures
            r == (self.sidebar_width_px - SIDEBAR_EDGE_HIT <= mx <= self.sidebar_width_px + SIDEBAR_EDGE_HIT),
    {
        mx as i64 >= self.sidebar_width_px as i64 - SIDEBAR_EDGE_HIT as i64 && mx as i64 <= self.sidebar_width_px
            as i64 + SIDEBAR_EDGE_HIT as i64
    }

    /// Drags the sidebar's edge to `mx`: the width follows, kept between
    /// [`SIDEBAR_MIN_WIDTH`] and [`SIDEBAR_MAX_WIDTH`]. Returns whether it
    /// changed.
    pub fn drag_sidebar_to(&mut self, mx: i32) -> (r: bool)
        ensures
            final(self).sidebar_width_px == clamp_spec(mx as int, SIDEBAR_MIN_WIDTH as int, SIDEBAR_MAX_WIDTH as int),
            r == (final(self).sidebar_width_px != old(self).sidebar_width_px),
            final(self).workspaces == old(self).workspaces,
            final(self).active == old(self).active,
            final(self).sidebar_visible == old(self).sidebar_visible,
    {
        let a = if mx > SIDEBAR_MIN_WIDTH {
            mx
        } else {
            SIDEBAR_MIN_WIDTH
        };
        let w = if a < SIDEBAR_MAX_WIDTH {
            a
        } else {
            SIDEBAR_MAX_WIDTH
        };
        if w != self.sidebar_width_px {
            self.sidebar_width_px = w;
            true
        } else {
            false
        }
    }

    /// Opens the context menu of the workspace under a right click at
    /// `(mx, my)`, if there is one there.
    pub fn open_context_menu(&mut self, mx: i32, my: i32)
        ensures
            final(self).context_menu == match row_at(
                my as int,
                old(self).sidebar_scroll as int,
                old(self).workspaces@.len() as int,
            ) {
                Some(i) => Some((i, mx, my)),
                None => old(self).context_menu,
            },
            final(self).workspaces == old(self).workspaces,
            final(self).active == old(self).active,
            final(self).renaming == old(self).renaming,
    {
        match self.row_under(my) {
            Some(i) => {
                self.context_menu = Some((i, mx, my));
            },
            None => {},
        }
    }

    /// A left click in the sidebar while the context menu may be open. A
    /// click outside the menu closes it and counts as a click in the
    /// sidebar (`Passed`). On the menu's first item renaming starts; on the
    /// second, with several workspaces, the workspace is to be closed; any
    /// other click on the items closes the menu; a click in the rest of the
    /// menu does nothing.
    pub fn menu_click(&mut self, mx: i32, my: i32) -> (r: MenuClick)
        requires
            old(self).context_menu matches Some((i, _, _)) ==> i < old(self).workspaces@.len(),
        ensures
            final(self).workspaces == old(self).workspaces,
            final(self).active == old(self).active,
            match old(self).context_menu {
                None => r == MenuClick::Passed && final(self).context_menu is None && final(self).renaming
                    == old(self).renaming,
                Some((i, cmx, cmy)) => if !in_menu(mx as int, my as int, cmx as int, cmy as int) {
                    r == MenuClick::Passed && final(self).context_menu is None && final(self).renaming
                        == old(self).renaming
                } else {
                    match menu_item_at(mx as int, my as int, cmx as int, cmy as int) {
                        None => r == MenuClick::Kept && final(self).context_menu == old(self).context_menu
                            && final(self).renaming == old(self).renaming,
                        Some(item) => final(self).context_menu is None && if item == 0 {
                            r == MenuClick::Rename && final(self).renaming == Some(i)
                                && final(self).rename_buf@ == old(self).workspaces@[i as int].name@
                        } else if item == 1 && old(self).workspaces@.len() > 1 {
                            r == MenuClick::Close(i) && final(self).renaming == old(self).renaming
                        } else {
                            r == MenuClick::Closed && final(self).renaming == old(self).renaming
                        },
                    }
                },
            },
    {
        let (i, cmx, cmy) = match self.context_menu {
            Some(m) => m,
            None => return MenuClick::Passed,
        };
        let x = mx as i64;
        let y = my as i64;
        let left = cmx as i64;
        let top = cmy as i64;
        if !(x >= left && x < left + MENU_WIDTH as i64 && y >= top && y < top + 64) {
            self.context_menu = None;
            return MenuClick::Passed;
        }
        if !(y < top + (MENU_ITEM_HEIGHT as i64) * 2) {
            return MenuClick::Kept;
        }
        let item = crate::tab_bar::div_toward_zero(y - top, MENU_ITEM_HEIGHT as i64);
        self.context_menu = None;
        if item == 0 {
            self.renaming = Some(i);
            self.rename_buf = self.workspaces[i].name.clone();
            MenuClick::Rename
        } else if item == 1 && self.workspaces.len() > 1 {
            MenuClick::Close(i)
        } else {
            MenuClick::Closed
        }
    }

    /// Where the context menu is drawn: kept inside the sidebar and above
    /// the screen's bottom.
    pub fn menu_origin(cmx: i32, cmy: i32, sidebar_w: i32, screen_h: i32) -> (r: (i64, i64))
        ensures
            r.0 == if cmx < sidebar_w - MENU_WIDTH {
                cmx as int
            } else {
                sidebar_w - MENU_WIDTH
            },
            r.1 == if cmy < screen_h - MENU_ITEM_HEIGHT * 2 {
                cmy as int
            } else {
                screen_h - MENU_ITEM_HEIGHT * 2
            },
    {
        let bx = sidebar_w as i64 - MENU_WIDTH as i64;
        let by = screen_h as i64 - (MENU_ITEM_HEIGHT as i64) * 2;
        (if (cmx as i64) < bx {
            cmx as i64
        } else {
            bx
        }, if (cmy as i64) < by {
            cmy as i64
        } else {
            by
        })
    }

    /// Starts renaming a workspace: the name is put into the buffer.
    pub fn start_rename(&mut self, idx: usize)
        requires
            idx < old(self).workspaces@.len(),
        ensures
            final(self).renaming == Some(idx),
            final(self).rename_buf@ == old(self).workspaces@[idx as int].name@,
            final(self).workspaces == old(self).workspaces,
            final(self).active == old(self).active,
    {
        self.renaming = Some(idx);
        self.rename_buf = self.workspaces[idx].name.clone();
    }

    /// Stops renaming without a change.
    pub fn cancel_rename(&mut self)
        ensures
            final(self).renaming is None,
            final(self).rename_buf@ == Seq::<char>::empty(),
            final(self).workspaces == old(self).workspaces,
            final(self).active == old(self).active,
    {
        self.renaming = None;
        self.rename_buf = String::new();
    }

    /// Ends renaming: the workspace takes the buffer's text, trimmed, when
    /// that is not empty.
    pub fn finish_rename(&mut self)
        ensures
            final(self).renaming is None,
            final(self).rename_buf@ == Seq::<char>::empty(),
            final(self).workspaces@.len() == old(self).workspaces@.len(),
            final(self).active == old(self).active,
            forall|j: int|
                0 <= j < old(self).workspaces@.len() ==> {
                    let renamed = old(self).renaming == Some(j as usize) && crate::text::trim_spec(
                        old(self).rename_buf@,
                    ).len() > 0;
                    &&& #[trigger] final(self).workspaces@[j].name@ == if renamed {
                        crate::text::trim_spec(old(self).rename_buf@)
                    } else {
                        old(self).workspaces@[j].name@
                    }
                    &&& final(self).workspaces@[j].root == old(self).workspaces@[j].root
                    &&& final(self).workspaces@[j].focused_panel_id == old(self).workspaces@[j].focused_panel_id
                },
    {
        match self.renaming {
            Some(idx) => {
                let t = crate::text::trim_string(self.rename_buf.as_str());
                if !t.as_str().is_empty() && idx < self.workspaces.len() {
                    let mut w = self.workspaces.remove(idx);
                    w.name = t;
                    self.workspaces.insert(idx, w);
                }
            },
            None => {},
        }
        self.renaming = None;
        self.rename_buf = String::new();
    }
}

/// A workspace's row in the sidebar as drawn: its index, its top, whether
/// it is the active one or under the mouse, its background, and where its
/// name and its info line go.
#[derive(Clone, Copy, Debug)]
pub struct SidebarRow {
    pub index: usize,
    pub y: i64,
    pub active: bool,
    pub hover: bool,
    pub background: Option<crate::status_bar::Rgba>,
    pub name_y: i64,
    pub info_y: i64,
}

/// The scroll the sidebar is drawn with: limited to the rows' height beyond
/// the list's area, and not below 0.
pub open spec fn drawn_scroll(scroll: int, count: int, screen_h: int) -> int {
    let m = max_sidebar_scroll(count, screen_h);
    let a = if scroll < m {
        scroll
    } else {
        m
    };
    if a > 0 {
        a
    } else {
        0
    }
}

/// Row `i` of the sidebar as drawn, with the list scrolled by `scroll`;
/// `mouse_y` is the pointer's height when it is over the sidebar.
pub open spec fn sidebar_row_spec(i: int, active: int, scroll: int, screen_h: int, font_size: int, mouse_y: Option<i32>) -> SidebarRow {
    let y = i * ROW_HEIGHT - scroll;
    let name_size = crate::tab_bar::label_size_spec(font_size);
    let info_size = if font_size - 4 > 7 {
        font_size - 4
    } else {
        7
    };
    let top_pad = crate::tab_bar::trunc_div(ROW_HEIGHT - (name_size + 4 + info_size), 2);
    let hover = match mouse_y {
        Some(my) => my >= y && my < y + ROW_HEIGHT && my < screen_h - SIDEBAR_BUTTON_HEIGHT,
        None => false,
    };
    SidebarRow {
        index: i as usize,
        y: y as i64,
        active: i == active,
        hover,
        background: if i == active {
            Some((40, 45, 65, 220))
        } else if hover {
            Some((30, 35, 50, 180))
        } else {
            None
        },
        name_y: (y + top_pad) as i64,
        info_y: (y + top_pad + name_size + 4) as i64,
    }
}

/// The rows from `from` on that show: those not wholly above the list or
/// below its area.
pub open spec fn sidebar_rows_spec(count: int, active: int, scroll: int, screen_h: int, font_size: int, mouse_y: Option<i32>, n: int) -> Seq<
    SidebarRow,
>
    decreases n,
{
    if n <= 0 {
        Seq::empty()
    } else {
        let i = n - 1;
        let y = i * ROW_HEIGHT - scroll;
        sidebar_rows_spec(count, active, scroll, screen_h, font_size, mouse_y, n - 1) + if y + ROW_HEIGHT < 0
            || y > screen_h - SIDEBAR_BUTTON_HEIGHT {
            Seq::<SidebarRow>::empty()
        } else {
            seq![sidebar_row_spec(i, active, scroll, screen_h, font_size, mouse_y)]
        }
    }
}

impl<T> WorkspaceManager<T> {
    /// The sidebar's rows as drawn on a screen of height `screen_h`, with
    /// the scroll they are drawn with.
    pub fn sidebar_rows(&self, screen_h: i32, font_size: i32, mouse_y: Option<i32>) -> (r: (Vec<SidebarRow>, i64))
        ensures
            ({
                let count = self.workspaces@.len() as int;
                let scroll = drawn_scroll(self.sidebar_scroll as int, count, screen_h as int);
                &&& r.1 == scroll
                &&& r.0@ == sidebar_rows_spec(
                    count,
                    self.active as int,
                    scroll,
                    screen_h as int,
                    font_size as int,
                    mouse_y,
                    count,
                )
            }),
    {
        let count = self.workspaces.len();
        let m0: i128 = (count as i128) * (ROW_HEIGHT as i128) - screen_h as i128 + SIDEBAR_BUTTON_HEIGHT as i128;
        let m: i128 = if m0 > 0 {
            m0
        } else {
            0
        };
        let a: i128 = if (self.sidebar_scroll as i128) < m {
            self.sidebar_scroll as i128
        } else {
            m
        };
        let scroll: i128 = if a > 0 {
            a
        } else {
            0
        };
        let name_size: i64 = if font_size as i64 - 2 > 8 {
            font_size as i64 - 2
        } else {
            8
        };
        let info_size: i64 = if font_size as i64 - 4 > 7 {
            font_size as i64 - 4
        } else {
            7
        };
        let top_pad = crate::tab_bar::div_toward_zero(ROW_HEIGHT as i64 - (name_size + 4 + info_size), 2);
        let list_h: i64 = screen_h as i64 - SIDEBAR_BUTTON_HEIGHT as i64;
        let mut rows: Vec<SidebarRow> = Vec::new();
        let mut i: usize = 0;
        while i < count
            invariant
                i <= count,
                count == self.workspaces@.len(),
                scroll == drawn_scroll(self.sidebar_scroll as int, count as int, screen_h as int),
                0 <= scroll <= self.sidebar_scroll || scroll == 0,
                name_size == crate::tab_bar::label_size_spec(font_size as int),
                info_size == (if font_size - 4 > 7 {
                    font_size - 4
                } else {
                    7
                }),
                top_pad == crate::tab_bar::trunc_div(ROW_HEIGHT - (name_size + 4 + info_size), 2),
                list_h == screen_h - SIDEBAR_BUTTON_HEIGHT,
                rows@ == sidebar_rows_spec(
                    count as int,
                    self.active as int,
                    scroll as int,
                    screen_h as int,
                    font_size as int,
                    mouse_y,
                    i as int,
                ),
            decreases count - i,
        {
            assert(0 <= (i as int) * 56 <= 56 * 0x1_0000_0000_0000_0000) by (nonlinear_arith)
                requires
                    i < 0x1_0000_0000_0000_0000,
            ;
            let yw: i128 = (i as i128) * (ROW_HEIGHT as i128) - scroll;
            if !(yw + (ROW_HEIGHT as i128) < 0 || yw > list_h as i128) {
                let y: i64 = yw as i64;
                let hover = match mouse_y {
                    Some(my) => (my as i64) >= y && (my as i64) < y + ROW_HEIGHT as i64 && (my as i64) < list_h,
                    None => false,
                };
                let active = i == self.active;
                rows.push(
                    SidebarRow {
                        index: i,
                        y,
                        active,
                        hover,
                        background: if active {
                            Some((40, 45, 65, 220))
                        } else if hover {
                            Some((30, 35, 50, 180))
                        } else {
                            None
                        },
                        name_y: y + top_pad,
                        info_y: y + top_pad + name_size + 4,
                    },
                );
            }
            i += 1;
        }
        (rows, scroll as i64)
    }
}

/// Stepping to the next workspace and back returns to the one that was
/// active; and the other way round.
pub proof fn lemma_next_prev_inverse(len: int, active: int)
    requires
        0 <= active < len,
    ensures
        ({
            let n = (active + 1) % len;
            let back = if n == 0 {
                len - 1
            } else {
                n - 1
            };
            back == active
        }),
        ({
            let p = if active == 0 {
                len - 1
            } else {
                active - 1
            };
            (p + 1) % len == active
        }),
{
    if active + 1 < len {
        vstd::arithmetic::div_mod::lemma_small_mod((active + 1) as nat, len as nat);
    } else {
        vstd::arithmetic::div_mod::lemma_mod_self_0(len);
    }
    if active == 0 {
        vstd::arithmetic::div_mod::lemma_mod_self_0(len);
    } else {
        vstd::arithmetic::div_mod::lemma_small_mod(active as nat, len as nat);
    }
}

/// Every operation keeps a manager valid (at least one workspace, and the
/// active index naming one), except removing its only workspace.
pub proof fn lemma_operations_keep_valid(len: int, active: int, idx: int)
    requires
        0 <= active < len,
        0 <= idx < len,
        len >= 2,
    ensures
        ({
            let new_len = len - 1;
            let a = if idx < active {
                active - 1
            } else if active >= new_len {
                if new_len > 0 {
                    new_len - 1
                } else {
                    0
                }
            } else {
                active
            };
            0 <= a < new_len
        }),
        (active + 1) % len < len,
        (if active == 0 { len - 1 } else { active - 1 }) < len,
{
    vstd::arithmetic::div_mod::lemma_mod_bound(active + 1, len);
}

/// Removing a workspace other than the active one keeps the same
/// workspace active.
pub proof fn lemma_remove_keeps_active<T>(ws: Seq<Workspace<T>>, active: int, idx: int)
    requires
        0 <= active < ws.len(),
        0 <= idx < ws.len(),
        idx != active,
    ensures
        ({
            let a = if idx < active {
                active - 1
            } else {
                active
            };
            ws.remove(idx)[a] == ws[active]
        }),
{
}

} // verus!
