//! Decisions of the window: its title, the font size, which panel and tab
//! have the focus, and what each keyboard shortcut does.
use vstd::prelude::*;

use crate::router::InputMode;
use crate::split::first_index;
use crate::terminal::input::{
    is_scalar_value, scalar_chars, KEY_BACKSLASH, KEY_DOWN, KEY_EQUAL, KEY_LEFT, KEY_LEFT_BRACKET,
    KEY_MINUS, KEY_RIGHT, KEY_RIGHT_BRACKET, KEY_UP, KEY_ZERO,
};
use crate::text::str_eq;

verus! {

/// The window's title: the program's name, with the workspace's name in
/// brackets when there are several workspaces, and the tab's title unless
/// it is the plain `"shell"`.
pub open spec fn window_title_spec(workspace_count: nat, ws_name: Seq<char>, tab_title: Seq<char>) -> Seq<char> {
    if workspace_count > 1 {
        if tab_title == "shell"@ {
            "Terminal AI - ["@ + ws_name + "]"@
        } else {
            "Terminal AI - ["@ + ws_name + "] "@ + tab_title
        }
    } else if tab_title == "shell"@ {
        "Terminal AI"@
    } else {
        "Terminal AI - "@ + tab_title
    }
}

/// [`window_title_spec`].
pub fn window_title(workspace_count: usize, ws_name: &str, tab_title: &str) -> (r: String)
    ensures
        r@ == window_title_spec(workspace_count as nat, ws_name@, tab_title@),
{
    let plain = str_eq(tab_title, "shell");
    let mut s = String::new();
    if workspace_count > 1 {
        s.push_str("Terminal AI - [");
        s.push_str(ws_name);
        if plain {
            s.push_str("]");
        } else {
            s.push_str("] ");
            s.push_str(tab_title);
        }
    } else if plain {
        s.push_str("Terminal AI");
    } else {
        s.push_str("Terminal AI - ");
        s.push_str(tab_title);
    }
    s
}

/// Largest font size.
pub const FONT_SIZE_MAX: i32 = 72;

/// Smallest font size.
pub const FONT_SIZE_MIN: i32 = 8;

/// A change of the font size asked from the keyboard.
#[derive(Clone, Copy, Debug, PartialEq, Eq, Structural)]
pub enum FontChange {
    Increase,
    Decrease,
    Reset,
}

/// The font size after a change: two points up to at most 72, two down to
/// at least 8, or back to the configured size.
pub open spec fn font_size_after_spec(current: int, change: FontChange, default: int) -> int {
    match change {
        FontChange::Increase => if current + 2 < FONT_SIZE_MAX {
            current + 2
        } else {
            FONT_SIZE_MAX as int
        },
        FontChange::Decrease => if current - 2 > FONT_SIZE_MIN {
            current - 2
        } else {
            FONT_SIZE_MIN as int
        },
        FontChange::Reset => default,
    }
}

/// [`font_size_after_spec`].
pub fn font_size_after(current: i32, change: FontChange, default: i32) -> (r: i32)
    ensures
        r == font_size_after_spec(current as int, change, default as int),
{
    match change {
        FontChange::Increase => {
            let v = current as i64 + 2;
            if v < FONT_SIZE_MAX as i64 {
                v as i32
            } else {
                FONT_SIZE_MAX
            }
        },
        FontChange::Decrease => {
            let v = current as i64 - 2;
            if v > FONT_SIZE_MIN as i64 {
                v as i32
            } else {
                FONT_SIZE_MIN
            }
        },
        FontChange::Reset => default,
    }
}

/// `i` is the first index of `x` when no earlier element is `x` and `i`
/// holds `x` or is the end.
proof fn lemma_first_index_at(s: Seq<u32>, x: u32, i: int)
    requires
        0 <= i <= s.len(),
        forall|j: int| 0 <= j < i ==> s[j] != x,
        i < s.len() ==> s[i] == x,
    ensures
        first_index(s, x) == i,
    decreases i,
{
    if i > 0 {
        assert(s[0] != x);
        lemma_first_index_at(s.drop_first(), x, i - 1);
    }
}

/// Index of the first occurrence of `x`, if any.
fn position_of(v: &[u32], x: u32) -> (r: Option<usize>)
    ensures
        match r {
            Some(i) => i < v@.len() && i == first_index(v@, x),
            None => first_index(v@, x) == v@.len(),
        },
{
    let mut i: usize = 0;
    while i < v.len()
        invariant
            i <= v@.len(),
            v@.len() == v.len(),
            forall|j: int| 0 <= j < i ==> v@[j] != x,
        decreases v@.len() - i,
    {
        if v[i] == x {
            proof {
                lemma_first_index_at(v@, x, i as int);
            }
            return Some(i);
        }
        i += 1;
    }
    proof {
        lemma_first_index_at(v@, x, v@.len() as int);
    }
    None
}

/// The panel after the focused one, wrapping around, in left-to-right
/// order; none when the focused panel is not among them.
pub open spec fn focus_next_spec(leaves: Seq<u32>, focused: u32) -> Option<u32> {
    let i = first_index(leaves, focused);
    if i < leaves.len() {
        Some(leaves[(i + 1) % (leaves.len() as int)])
    } else {
        None
    }
}

/// The panel before the focused one, wrapping around.
pub open spec fn focus_prev_spec(leaves: Seq<u32>, focused: u32) -> Option<u32> {
    let i = first_index(leaves, focused);
    if i < leaves.len() {
        Some(
            if i == 0 {
                leaves[leaves.len() - 1]
            } else {
                leaves[i - 1]
            },
        )
    } else {
        None
    }
}

/// [`focus_next_spec`].
pub fn focus_next(leaves: &[u32], focused: u32) -> (r: Option<u32>)
    ensures
        r == focus_next_spec(leaves@, focused),
{
    match position_of(leaves, focused) {
        Some(i) => {
            assert(i < leaves.len());
            Some(leaves[(i + 1) % leaves.len()])
        },
        None => None,
    }
}

/// [`focus_prev_spec`].
pub fn focus_prev(leaves: &[u32], focused: u32) -> (r: Option<u32>)
    ensures
        r == focus_prev_spec(leaves@, focused),
{
    match position_of(leaves, focused) {
        Some(i) => Some(
            if i == 0 {
                leaves[leaves.len() - 1]
            } else {
                leaves[i - 1]
            },
        ),
        None => None,
    }
}

/// In a list without repeats, the first index of the element at `j` is `j`.
proof fn lemma_first_index_distinct(s: Seq<u32>, j: int)
    requires
        s.no_duplicates(),
        0 <= j < s.len(),
    ensures
        first_index(s, s[j]) == j,
{
    assert forall|k: int| 0 <= k < j implies s[k] != s[j] by {}
    lemma_first_index_at(s, s[j], j);
}

/// Moving the focus to the next panel and back returns to the panel that
/// had it, and so does moving back and then on, when panel ids do not
/// repeat.
pub proof fn lemma_focus_next_prev(leaves: Seq<u32>, x: u32)
    requires
        leaves.no_duplicates(),
        leaves.contains(x),
    ensures
        focus_next_spec(leaves, x) matches Some(y) && focus_prev_spec(leaves, y) == Some(x),
        focus_prev_spec(leaves, x) matches Some(z) && focus_next_spec(leaves, z) == Some(x),
{
    let n = leaves.len() as int;
    let i = choose|i: int| 0 <= i < n && leaves[i] == x;
    lemma_first_index_distinct(leaves, i);
    let j = if i + 1 < n {
        i + 1
    } else {
        0
    };
    if i + 1 < n {
        vstd::arithmetic::div_mod::lemma_small_mod((i + 1) as nat, n as nat);
    } else {
        vstd::arithmetic::div_mod::lemma_mod_self_0(n);
    }
    assert((i + 1) % n == j);
    lemma_first_index_distinct(leaves, j);
    let p = if i == 0 {
        n - 1
    } else {
        i - 1
    };
    lemma_first_index_distinct(leaves, p);
    if p + 1 < n {
        vstd::arithmetic::div_mod::lemma_small_mod((p + 1) as nat, n as nat);
    } else {
        vstd::arithmetic::div_mod::lemma_mod_self_0(n);
    }
}

/// The panel that gets the focus after the focused one closed: the one now
/// at the closed panel's place, or the last one.
pub open spec fn focus_after_close_spec(before: Seq<u32>, closed: u32, after: Seq<u32>) -> u32 {
    let i = first_index(before, closed);
    let i0 = if i < before.len() {
        i
    } else {
        0
    };
    if i0 < after.len() - 1 {
        after[i0]
    } else {
        after[after.len() - 1]
    }
}

/// [`focus_after_close_spec`].
pub fn focus_after_close(before: &[u32], closed: u32, after: &[u32]) -> (r: u32)
    requires
        after@.len() > 0,
    ensures
        r == focus_after_close_spec(before@, closed, after@),
{
    let i = match position_of(before, closed) {
        Some(i) => i,
        None => 0,
    };
    let last = after.len() - 1;
    if i < last {
        after[i]
    } else {
        after[last]
    }
}

/// The tab after the active one, wrapping around.
pub fn next_tab(active: usize, count: usize) -> (r: usize)
    requires
        count > 0,
        active < usize::MAX,
    ensures
        r == (active + 1) % (count as int),
{
    (active + 1) % count
}

/// The tab before the active one, wrapping around.
pub fn prev_tab(active: usize, count: usize) -> (r: usize)
    requires
        count > 0,
    ensures
        r == if active == 0 {
            count - 1
        } else {
            active - 1
        },
{
    if active == 0 {
        count - 1
    } else {
        active - 1
    }
}

/// The active tab after one was removed, `remaining` being left: the same
/// index, or the last tab.
pub fn active_after_remove(active: usize, remaining: usize) -> (r: usize)
    requires
        remaining > 0,
    ensures
        r == if active < remaining - 1 {
            active
        } else {
            (remaining - 1) as usize
        },
{
    if active < remaining - 1 {
        active
    } else {
        remaining - 1
    }
}

/// What closing the focused panel, or a panel left without tabs, does:
/// close the panel when there are several, else remove the workspace when
/// there are several, else quit (for a panel left without tabs) or nothing
/// (for the shortcut).
#[derive(Clone, Copy, Debug, PartialEq, Eq, Structural)]
pub enum PanelCloseAction {
    ClosePanel,
    RemoveWorkspace,
    Quit,
    Nothing,
}

/// [`PanelCloseAction`] for `panel_count` panels in the workspace and
/// `workspace_count` workspaces; `emptied` when the panel's last tab was
/// closed.
pub fn panel_close_action(panel_count: usize, workspace_count: usize, emptied: bool) -> (r: PanelCloseAction)
    ensures
        r == if panel_count > 1 {
            PanelCloseAction::ClosePanel
        } else if workspace_count > 1 {
            PanelCloseAction::RemoveWorkspace
        } else if emptied {
            PanelCloseAction::Quit
        } else {
            PanelCloseAction::Nothing
        },
{
    if panel_count > 1 {
        PanelCloseAction::ClosePanel
    } else if workspace_count > 1 {
        PanelCloseAction::RemoveWorkspace
    } else if emptied {
        PanelCloseAction::Quit
    } else {
        PanelCloseAction::Nothing
    }
}

/// Raylib's code of the `C` key.
pub const KEY_C: i32 = 67;
/// Raylib's code of the `D` key.
pub const KEY_D: i32 = 68;
/// Raylib's code of the `E` key.
pub const KEY_E: i32 = 69;
/// Raylib's code of the `J` key.
pub const KEY_J: i32 = 74;
/// Raylib's code of the `N` key.
pub const KEY_N: i32 = 78;
/// Raylib's code of the `S` key.
pub const KEY_S: i32 = 83;
/// Raylib's code of the `T` key.
pub const KEY_T: i32 = 84;
/// Raylib's code of the `V` key.
pub const KEY_V: i32 = 86;
/// Raylib's code of the `W` key.
pub const KEY_W: i32 = 87;
/// Raylib's code of the `Y` key.
pub const KEY_Y: i32 = 89;
/// Raylib's code of the `1` key; `2` to `9` follow.
pub const KEY_ONE: i32 = 49;
/// Raylib's code of the keypad's `-`.
pub const KEY_KP_SUBTRACT: i32 = 333;
/// Raylib's code of the keypad's `+`.
pub const KEY_KP_ADD: i32 = 334;

/// The modifier keys held, as the shortcuts read them.
#[derive(Clone, Copy, Debug, PartialEq, Eq, Structural)]
pub struct ShortcutMods {
    pub cmd: bool,
    pub shift: bool,
    pub ctrl: bool,
    pub alt: bool,
}

/// The first of the digits `1` to `9`, from index `i` on, whose key was
/// pressed and whose index is below `limit`.
pub open spec fn digit_choice(pressed: Seq<i32>, limit: int, i: int) -> Option<usize>
    decreases 9 - i,
{
    if i < 0 || i >= 9 {
        None
    } else if pressed.contains((KEY_ONE + i) as i32) && i < limit {
        Some(i as usize)
    } else {
        digit_choice(pressed, limit, i + 1)
    }
}

/// Whether a key was pressed.
fn key_in(pressed: &[i32], k: i32) -> (r: bool)
    ensures
        r == pressed@.contains(k),
{
    let mut i: usize = 0;
    while i < pressed.len()
        invariant
            i <= pressed@.len(),
            pressed@.len() == pressed.len(),
            forall|j: int| 0 <= j < i ==> pressed@[j] != k,
        decreases pressed@.len() - i,
    {
        if pressed[i] == k {
            assert(pressed@[i as int] == k);
            return true;
        }
        i += 1;
    }
    false
}

/// [`digit_choice`] from the first digit.
fn choose_digit(pressed: &[i32], limit: usize) -> (r: Option<usize>)
    ensures
        r == digit_choice(pressed@, limit as int, 0),
{
    let mut i: i32 = 0;
    while i < 9
        invariant
            0 <= i <= 9,
            digit_choice(pressed@, limit as int, 0) == digit_choice(pressed@, limit as int, i as int),
        decreases 9 - i,
    {
        if key_in(pressed, KEY_ONE + i) && (i as usize) < limit {
            return Some(i as usize);
        }
        i += 1;
    }
    None
}

/// What a shortcut does to panels and workspaces.
#[derive(Clone, Copy, Debug, PartialEq, Eq, Structural)]
pub enum LayoutShortcut {
    SplitHorizontal,
    SplitVertical,
    ClosePanel,
    FocusNext,
    FocusPrev,
    NewWorkspace,
    NextWorkspace,
    PrevWorkspace,
    SwitchWorkspace(usize),
    ToggleSidebar,
}

/// The shortcut for panels and workspaces, if any: Cmd+D splits beside,
/// Cmd+Shift+D below, Cmd+Shift+W closes the panel, Cmd+Option+arrows move
/// the focus, Cmd+N adds a workspace, Ctrl+Cmd+] and [ and 1 to 9 switch
/// workspaces, Cmd+\ shows or hides the sidebar. Earlier shortcuts win.
pub open spec fn layout_shortcut_spec(m: ShortcutMods, pressed: Seq<i32>, workspace_count: int) -> Option<
    LayoutShortcut,
> {
    if m.cmd && !m.shift && pressed.contains(KEY_D) {
        Some(LayoutShortcut::SplitHorizontal)
    } else if m.cmd && m.shift && pressed.contains(KEY_D) {
        Some(LayoutShortcut::SplitVertical)
    } else if m.cmd && m.shift && pressed.contains(KEY_W) {
        Some(LayoutShortcut::ClosePanel)
    } else if m.cmd && m.alt && pressed.contains(KEY_RIGHT) {
        Some(LayoutShortcut::FocusNext)
    } else if m.cmd && m.alt && pressed.contains(KEY_LEFT) {
        Some(LayoutShortcut::FocusPrev)
    } else if m.cmd && m.alt && pressed.contains(KEY_DOWN) {
        Some(LayoutShortcut::FocusNext)
    } else if m.cmd && m.alt && pressed.contains(KEY_UP) {
        Some(LayoutShortcut::FocusPrev)
    } else if m.cmd && !m.shift && !m.ctrl && pressed.contains(KEY_N) {
        Some(LayoutShortcut::NewWorkspace)
    } else if m.ctrl && m.cmd && pressed.contains(KEY_RIGHT_BRACKET) {
        Some(LayoutShortcut::NextWorkspace)
    } else if m.ctrl && m.cmd && pressed.contains(KEY_LEFT_BRACKET) {
        Some(LayoutShortcut::PrevWorkspace)
    } else if m.ctrl && m.cmd {
        match digit_choice(pressed, workspace_count, 0) {
            Some(i) => Some(LayoutShortcut::SwitchWorkspace(i)),
            None => None,
        }
    } else if m.cmd && pressed.contains(KEY_BACKSLASH) {
        Some(LayoutShortcut::ToggleSidebar)
    } else {
        None
    }
}

/// [`layout_shortcut_spec`], given the keys pressed this frame.
pub fn layout_shortcut(m: ShortcutMods, pressed: &[i32], workspace_count: usize) -> (r: Option<LayoutShortcut>)
    ensures
        r == layout_shortcut_spec(m, pressed@, workspace_count as int),
{
    if m.cmd && !m.shift && key_in(pressed, KEY_D) {
        Some(LayoutShortcut::SplitHorizontal)
    } else if m.cmd && m.shift && key_in(pressed, KEY_D) {
        Some(LayoutShortcut::SplitVertical)
    } else if m.cmd && m.shift && key_in(pressed, KEY_W) {
        Some(LayoutShortcut::ClosePanel)
    } else if m.cmd && m.alt && key_in(pressed, KEY_RIGHT) {
        Some(LayoutShortcut::FocusNext)
    } else if m.cmd && m.alt && key_in(pressed, KEY_LEFT) {
        Some(LayoutShortcut::FocusPrev)
    } else if m.cmd && m.alt && key_in(pressed, KEY_DOWN) {
        Some(LayoutShortcut::FocusNext)
    } else if m.cmd && m.alt && key_in(pressed, KEY_UP) {
        Some(LayoutShortcut::FocusPrev)
    } else if m.cmd && !m.shift && !m.ctrl && key_in(pressed, KEY_N) {
        Some(LayoutShortcut::NewWorkspace)
    } else if m.ctrl && m.cmd && key_in(pressed, KEY_RIGHT_BRACKET) {
        Some(LayoutShortcut::NextWorkspace)
    } else if m.ctrl && m.cmd && key_in(pressed, KEY_LEFT_BRACKET) {
        Some(LayoutShortcut::PrevWorkspace)
    } else if m.ctrl && m.cmd {
        match choose_digit(pressed, workspace_count) {
            Some(i) => Some(LayoutShortcut::SwitchWorkspace(i)),
            None => None,
        }
    } else if m.cmd && key_in(pressed, KEY_BACKSLASH) {
        Some(LayoutShortcut::ToggleSidebar)
    } else {
        None
    }
}

/// What a shortcut does to the tabs of the focused panel.
#[derive(Clone, Copy, Debug, PartialEq, Eq, Structural)]
pub enum TabShortcut {
    NewTab,
    CloseTab,
    NextTab,
    PrevTab,
    SelectTab(usize),
}

/// The shortcut for tabs, if any: Cmd+T opens a tab, Cmd+W closes one,
/// Cmd+Shift+] and [ cycle, Cmd+1 to 9 pick one of the `tab_count` tabs.
pub open spec fn tab_shortcut_spec(m: ShortcutMods, pressed: Seq<i32>, tab_count: int) -> Option<TabShortcut> {
    if m.cmd && pressed.contains(KEY_T) {
        Some(TabShortcut::NewTab)
    } else if m.cmd && pressed.contains(KEY_W) {
        Some(TabShortcut::CloseTab)
    } else if m.cmd && m.shift && pressed.contains(KEY_RIGHT_BRACKET) {
        Some(TabShortcut::NextTab)
    } else if m.cmd && m.shift && pressed.contains(KEY_LEFT_BRACKET) {
        Some(TabShortcut::PrevTab)
    } else if m.cmd {
        match digit_choice(pressed, tab_count, 0) {
            Some(i) => Some(TabShortcut::SelectTab(i)),
            None => None,
        }
    } else {
        None
    }
}

/// [`tab_shortcut_spec`].
pub fn tab_shortcut(m: ShortcutMods, pressed: &[i32], tab_count: usize) -> (r: Option<TabShortcut>)
    ensures
        r == tab_shortcut_spec(m, pressed@, tab_count as int),
{
    if m.cmd && key_in(pressed, KEY_T) {
        Some(TabShortcut::NewTab)
    } else if m.cmd && key_in(pressed, KEY_W) {
        Some(TabShortcut::CloseTab)
    } else if m.cmd && m.shift && key_in(pressed, KEY_RIGHT_BRACKET) {
        Some(TabShortcut::NextTab)
    } else if m.cmd && m.shift && key_in(pressed, KEY_LEFT_BRACKET) {
        Some(TabShortcut::PrevTab)
    } else if m.cmd {
        match choose_digit(pressed, tab_count) {
            Some(i) => Some(TabShortcut::SelectTab(i)),
            None => None,
        }
    } else {
        None
    }
}

/// The font shortcut, if any: Cmd with `=` or the keypad's `+` grows the
/// font, with `-` or the keypad's `-` shrinks it, with `0` resets it.
pub open spec fn font_shortcut_spec(cmd: bool, pressed: Seq<i32>) -> Option<FontChange> {
    if cmd && (pressed.contains(KEY_EQUAL) || pressed.contains(KEY_KP_ADD)) {
        Some(FontChange::Increase)
    } else if cmd && (pressed.contains(KEY_MINUS) || pressed.contains(KEY_KP_SUBTRACT)) {
        Some(FontChange::Decrease)
    } else if cmd && pressed.contains(KEY_ZERO) {
        Some(FontChange::Reset)
    } else {
        None
    }
}

/// [`font_shortcut_spec`].
pub fn font_shortcut(cmd: bool, pressed: &[i32]) -> (r: Option<FontChange>)
    ensures
        r == font_shortcut_spec(cmd, pressed@),
{
    if cmd && (key_in(pressed, KEY_EQUAL) || key_in(pressed, KEY_KP_ADD)) {
        Some(FontChange::Increase)
    } else if cmd && (key_in(pressed, KEY_MINUS) || key_in(pressed, KEY_KP_SUBTRACT)) {
        Some(FontChange::Decrease)
    } else if cmd && key_in(pressed, KEY_ZERO) {
        Some(FontChange::Reset)
    } else {
        None
    }
}

/// What a key does to the AI prompt or to a command waiting for
/// confirmation.
#[derive(Clone, Copy, Debug, PartialEq, Eq, Structural)]
pub enum PromptOp {
    Char(char),
    Backspace,
    HistoryUp,
    HistoryDown,
    Submit,
    Cancel,
    ToggleAi,
    ToggleAutoExecute,
    RunCommand,
    CancelCommand,
    EditCommand,
}

/// The keys of a frame as the focused tab reads them.
pub struct TabKeys {
    pub ctrl: bool,
    /// Keys pressed this frame.
    pub pressed: Vec<i32>,
    /// Keys repeated this frame by holding them.
    pub repeated: Vec<i32>,
    /// The code points typed this frame.
    pub typed: Vec<u32>,
}

/// Pressed, or repeated while held.
pub open spec fn hit(k: TabKeys, key: i32) -> bool {
    k.pressed@.contains(key) || k.repeated@.contains(key)
}

/// The characters typed into the prompt: each valid character but the
/// newline.
pub open spec fn prompt_chars(codes: Seq<u32>) -> Seq<PromptOp>
    decreases codes.len(),
{
    if codes.len() == 0 {
        Seq::empty()
    } else {
        prompt_chars(codes.drop_last()) + if codes.last() != 0x0A && is_scalar_value(codes.last()) {
            seq![PromptOp::Char(codes.last() as char)]
        } else {
            Seq::<PromptOp>::empty()
        }
    }
}

/// What the keys do in a mode other than the shell's: Ctrl+/ toggles the
/// AI prompt and Ctrl+Y the automatic running of commands before anything
/// else. In the prompt, Ctrl+J adds a newline, else the typed characters
/// are added; then Backspace, Up, Down, Enter (without Ctrl) and Escape
/// act, in that order. While a command waits, Enter runs it, else Escape
/// cancels it, else `e` edits it.
pub open spec fn tab_keys_spec(mode: InputMode, k: TabKeys) -> Seq<PromptOp> {
    if k.ctrl && k.pressed@.contains(crate::terminal::input::KEY_SLASH) {
        seq![PromptOp::ToggleAi]
    } else if k.ctrl && k.pressed@.contains(KEY_Y) {
        seq![PromptOp::ToggleAutoExecute]
    } else {
        match mode {
            InputMode::AiPrompt => (if k.ctrl && k.pressed@.contains(KEY_J) {
                seq![PromptOp::Char('\n')]
            } else {
                prompt_chars(k.typed@)
            }) + (if hit(k, crate::terminal::input::KEY_BACKSPACE) {
                seq![PromptOp::Backspace]
            } else {
                Seq::empty()
            }) + (if hit(k, KEY_UP) {
                seq![PromptOp::HistoryUp]
            } else {
                Seq::empty()
            }) + (if hit(k, KEY_DOWN) {
                seq![PromptOp::HistoryDown]
            } else {
                Seq::empty()
            }) + (if k.pressed@.contains(crate::terminal::input::KEY_ENTER) && !k.ctrl {
                seq![PromptOp::Submit]
            } else {
                Seq::empty()
            }) + (if k.pressed@.contains(crate::terminal::input::KEY_ESCAPE) {
                seq![PromptOp::Cancel]
            } else {
                Seq::empty()
            }),
            InputMode::CommandConfirm => if k.pressed@.contains(crate::terminal::input::KEY_ENTER) {
                seq![PromptOp::RunCommand]
            } else if k.pressed@.contains(crate::terminal::input::KEY_ESCAPE) {
                seq![PromptOp::CancelCommand]
            } else if k.pressed@.contains(KEY_E) {
                seq![PromptOp::EditCommand]
            } else {
                Seq::empty()
            },
            _ => Seq::empty(),
        }
    }
}

/// On the command confirmation, apart from the two toggles: Enter runs the
/// command, whatever else is pressed; else Esc cancels it; else `e` edits
/// it; other keys do nothing.
pub proof fn lemma_confirm_keys(k: TabKeys)
    requires
        !(k.ctrl && k.pressed@.contains(crate::terminal::input::KEY_SLASH)),
        !(k.ctrl && k.pressed@.contains(KEY_Y)),
    ensures
        k.pressed@.contains(crate::terminal::input::KEY_ENTER) ==> tab_keys_spec(
            InputMode::CommandConfirm,
            k,
        ) == seq![PromptOp::RunCommand],
        !k.pressed@.contains(crate::terminal::input::KEY_ENTER) && k.pressed@.contains(
            crate::terminal::input::KEY_ESCAPE,
        ) ==> tab_keys_spec(InputMode::CommandConfirm, k) == seq![PromptOp::CancelCommand],
        !k.pressed@.contains(crate::terminal::input::KEY_ENTER) && !k.pressed@.contains(
            crate::terminal::input::KEY_ESCAPE,
        ) && k.pressed@.contains(KEY_E) ==> tab_keys_spec(InputMode::CommandConfirm, k) == seq![
            PromptOp::EditCommand,
        ],
        !k.pressed@.contains(crate::terminal::input::KEY_ENTER) && !k.pressed@.contains(
            crate::terminal::input::KEY_ESCAPE,
        ) && !k.pressed@.contains(KEY_E) ==> tab_keys_spec(InputMode::CommandConfirm, k).len() == 0,
{
}

/// In the AI prompt, apart from the two toggles, Enter without Ctrl
/// submits the prompt and Esc cancels it, each once, and neither acts on
/// a command; with neither pressed, the prompt is neither submitted nor
/// cancelled.
#[verifier::spinoff_prover]
#[verifier::rlimit(60)]
pub proof fn lemma_prompt_enter_and_escape(k: TabKeys)
    requires
        !(k.ctrl && k.pressed@.contains(crate::terminal::input::KEY_SLASH)),
        !(k.ctrl && k.pressed@.contains(KEY_Y)),
    ensures
        tab_keys_spec(InputMode::AiPrompt, k).contains(PromptOp::Submit) <==> (k.pressed@.contains(
            crate::terminal::input::KEY_ENTER,
        ) && !k.ctrl),
        tab_keys_spec(InputMode::AiPrompt, k).contains(PromptOp::Cancel) <==> k.pressed@.contains(
            crate::terminal::input::KEY_ESCAPE,
        ),
        !tab_keys_spec(InputMode::AiPrompt, k).contains(PromptOp::RunCommand),
        !tab_keys_spec(InputMode::AiPrompt, k).contains(PromptOp::CancelCommand),
{
    let base = if k.ctrl && k.pressed@.contains(KEY_J) {
        seq![PromptOp::Char('\n')]
    } else {
        prompt_chars(k.typed@)
    };
    lemma_prompt_chars_are_chars(k.typed@);
    let r = tab_keys_spec(InputMode::AiPrompt, k);
    let bs = if hit(k, crate::terminal::input::KEY_BACKSPACE) {
        seq![PromptOp::Backspace]
    } else {
        Seq::empty()
    };
    let up = if hit(k, KEY_UP) {
        seq![PromptOp::HistoryUp]
    } else {
        Seq::empty()
    };
    let down = if hit(k, KEY_DOWN) {
        seq![PromptOp::HistoryDown]
    } else {
        Seq::empty()
    };
    let sub = if k.pressed@.contains(crate::terminal::input::KEY_ENTER) && !k.ctrl {
        seq![PromptOp::Submit]
    } else {
        Seq::empty()
    };
    let can = if k.pressed@.contains(crate::terminal::input::KEY_ESCAPE) {
        seq![PromptOp::Cancel]
    } else {
        Seq::empty()
    };
    assert(r == base + bs + up + down + sub + can);
    let head = base + bs + up + down;
    assert forall|i: int| 0 <= i < head.len() implies !(#[trigger] head[i] is Submit) && !(
    head[i] is Cancel) && !(head[i] is RunCommand) && !(head[i] is CancelCommand) by {
        if i < base.len() {
            assert(head[i] == base[i]);
        } else if i < base.len() + bs.len() {
            assert(head[i] == bs[i - base.len()]);
        } else if i < base.len() + bs.len() + up.len() {
            assert(head[i] == up[i - base.len() - bs.len()]);
        } else {
            assert(head[i] == down[i - base.len() - bs.len() - up.len()]);
        }
    }
    assert(r == head + sub + can);
    if k.pressed@.contains(crate::terminal::input::KEY_ENTER) && !k.ctrl {
        assert(r[head.len() as int] == PromptOp::Submit);
    }
    if k.pressed@.contains(crate::terminal::input::KEY_ESCAPE) {
        assert(r[r.len() - 1] == PromptOp::Cancel);
    }
    assert forall|i: int| 0 <= i < r.len() implies (r[i] is Submit ==> k.pressed@.contains(
        crate::terminal::input::KEY_ENTER,
    ) && !k.ctrl) && (r[i] is Cancel ==> k.pressed@.contains(crate::terminal::input::KEY_ESCAPE))
        && !(r[i] is RunCommand) && !(r[i] is CancelCommand) by {
        if i < head.len() {
            assert(r[i] == head[i]);
        } else if i < head.len() + sub.len() {
            assert(r[i] == sub[i - head.len()]);
        } else {
            assert(r[i] == can[i - head.len() - sub.len()]);
        }
    }
}

/// The prompt's characters are only characters.
proof fn lemma_prompt_chars_are_chars(codes: Seq<u32>)
    ensures
        forall|i: int| 0 <= i < prompt_chars(codes).len() ==> #[trigger] prompt_chars(codes)[i] is Char,
    decreases codes.len(),
{
    if codes.len() > 0 {
        lemma_prompt_chars_are_chars(codes.drop_last());
    }
}

/// [`tab_keys_spec`]. In the shell's mode the keys go to the shell, which
/// this does not cover beyond the two toggles.
#[verifier::rlimit(40)]
pub fn tab_keys(mode: InputMode, k: &TabKeys) -> (r: Vec<PromptOp>)
    ensures
        r@ == tab_keys_spec(mode, *k),
{
    let mut out: Vec<PromptOp> = Vec::new();
    if k.ctrl && key_in(k.pressed.as_slice(), crate::terminal::input::KEY_SLASH) {
        out.push(PromptOp::ToggleAi);
        assert(out@ =~= tab_keys_spec(mode, *k));
        return out;
    }
    if k.ctrl && key_in(k.pressed.as_slice(), KEY_Y) {
        out.push(PromptOp::ToggleAutoExecute);
        assert(out@ =~= tab_keys_spec(mode, *k));
        return out;
    }
    match mode {
        InputMode::AiPrompt => {
            if k.ctrl && key_in(k.pressed.as_slice(), KEY_J) {
                out.push(PromptOp::Char('\n'));
            } else {
                let mut i: usize = 0;
                while i < k.typed.len()
                    invariant
                        i <= k.typed@.len(),
                        out@ == prompt_chars(k.typed@.subrange(0, i as int)),
                    decreases k.typed@.len() - i,
                {
                    let ghost q = k.typed@.subrange(0, i as int + 1);
                    assert(q.drop_last() =~= k.typed@.subrange(0, i as int));
                    assert(q.last() == k.typed@[i as int]);
                    let cp = k.typed[i];
                    if cp != 0x0A {
                        match crate::terminal::input::char_from_code(cp) {
                            Some(c) => {
                                proof {
                                    crate::terminal::input::lemma_char_of_scalar(cp, c);
                                }
                                out.push(PromptOp::Char(c));
                            },
                            None => {},
                        }
                    }
                    assert(out@ =~= prompt_chars(q));
                    i += 1;
                }
                assert(k.typed@.subrange(0, k.typed@.len() as int) == k.typed@);
            }
            let ghost head = out@;
            if key_in(k.pressed.as_slice(), crate::terminal::input::KEY_BACKSPACE) || key_in(
                k.repeated.as_slice(),
                crate::terminal::input::KEY_BACKSPACE,
            ) {
                out.push(PromptOp::Backspace);
            }
            if key_in(k.pressed.as_slice(), KEY_UP) || key_in(k.repeated.as_slice(), KEY_UP) {
                out.push(PromptOp::HistoryUp);
            }
            if key_in(k.pressed.as_slice(), KEY_DOWN) || key_in(k.repeated.as_slice(), KEY_DOWN) {
                out.push(PromptOp::HistoryDown);
            }
            if key_in(k.pressed.as_slice(), crate::terminal::input::KEY_ENTER) && !k.ctrl {
                out.push(PromptOp::Submit);
            }
            if key_in(k.pressed.as_slice(), crate::terminal::input::KEY_ESCAPE) {
                out.push(PromptOp::Cancel);
            }
        },
        InputMode::CommandConfirm => {
            if key_in(k.pressed.as_slice(), crate::terminal::input::KEY_ENTER) {
                out.push(PromptOp::RunCommand);
            } else if key_in(k.pressed.as_slice(), crate::terminal::input::KEY_ESCAPE) {
                out.push(PromptOp::CancelCommand);
            } else if key_in(k.pressed.as_slice(), KEY_E) {
                out.push(PromptOp::EditCommand);
            }
        },
        _ => {},
    }
    assert(out@ =~= tab_keys_spec(mode, *k));
    out
}

/// How many saved sessions the session manager lists at once.
pub const SESSION_LIST_VISIBLE: usize = 15;

/// The session manager's list: the selected name and the first one shown.
#[derive(Clone, Copy, Debug, PartialEq, Eq, Structural)]
pub struct SessionList {
    pub selected: usize,
    pub scroll: usize,
}

/// `a - b`, or 0 when `b` is larger.
pub open spec fn sat_sub(a: int, b: int) -> int {
    if a >= b {
        a - b
    } else {
        0
    }
}

/// The list after moving the selection up: one name up, scrolled to show
/// it.
pub open spec fn list_up_spec(l: SessionList) -> SessionList {
    let sel = sat_sub(l.selected as int, 1);
    SessionList {
        selected: sel as usize,
        scroll: if sel < l.scroll {
            sel as usize
        } else {
            l.scroll
        },
    }
}

/// The list of `len` names after moving the selection down: one name down
/// but not past the last, scrolled to show it.
pub open spec fn list_down_spec(l: SessionList, len: nat) -> SessionList {
    let sel = if l.selected + 1 < sat_sub(len as int, 1) {
        l.selected + 1
    } else {
        sat_sub(len as int, 1)
    };
    SessionList {
        selected: sel as usize,
        scroll: if sel >= l.scroll + SESSION_LIST_VISIBLE {
            sat_sub(sel, (SESSION_LIST_VISIBLE - 1) as int) as usize
        } else {
            l.scroll
        },
    }
}

/// The list with the name at `index` selected, scrolled the least to show
/// it.
pub open spec fn list_show_spec(l: SessionList, index: usize) -> SessionList {
    SessionList {
        selected: index,
        scroll: if index >= l.scroll + SESSION_LIST_VISIBLE {
            sat_sub(index as int, (SESSION_LIST_VISIBLE - 1) as int) as usize
        } else if index < l.scroll {
            index
        } else {
            l.scroll
        },
    }
}

/// The selected name is among the rows shown.
pub open spec fn shows_selection(l: SessionList) -> bool {
    l.scroll <= l.selected < l.scroll + SESSION_LIST_VISIBLE
}

/// Moving through the session manager's list keeps the selected name in
/// view: moving up, moving down within a list that holds the selection,
/// and selecting any name.
pub proof fn lemma_session_list_shows_selection(l: SessionList, len: nat, index: usize)
    requires
        shows_selection(l),
        l.selected < len <= usize::MAX,
    ensures
        shows_selection(list_up_spec(l)),
        shows_selection(list_down_spec(l, len)),
        shows_selection(list_show_spec(l, index)),
{
}

impl SessionList {
    /// The list at its top.
    pub fn new() -> (r: Self)
        ensures
            r.selected == 0 && r.scroll == 0,
    {
        SessionList { selected: 0, scroll: 0 }
    }

    /// Selects the name above, as [`list_up_spec`].
    pub fn up(&mut self)
        ensures
            *final(self) == list_up_spec(*old(self)),
    {
        self.selected = if self.selected > 0 {
            self.selected - 1
        } else {
            0
        };
        if self.selected < self.scroll {
            self.scroll = self.selected;
        }
    }

    /// Selects the name below among `len`, as [`list_down_spec`].
    pub fn down(&mut self, len: usize)
        requires
            old(self).selected < usize::MAX,
            old(self).scroll + SESSION_LIST_VISIBLE <= usize::MAX,
        ensures
            *final(self) == list_down_spec(*old(self), len as nat),
    {
        let last = if len > 0 {
            len - 1
        } else {
            0
        };
        let next = self.selected + 1;
        self.selected = if next < last {
            next
        } else {
            last
        };
        if self.selected >= self.scroll + SESSION_LIST_VISIBLE {
            self.scroll = if self.selected >= SESSION_LIST_VISIBLE - 1 {
                self.selected - (SESSION_LIST_VISIBLE - 1)
            } else {
                0
            };
        }
    }

    /// Selects the name at `index`, as after saving a session under it, as
    /// [`list_show_spec`].
    pub fn show_index(&mut self, index: usize)
        requires
            old(self).scroll + SESSION_LIST_VISIBLE <= usize::MAX,
        ensures
            *final(self) == list_show_spec(*old(self), index),
    {
        self.selected = index;
        if index >= self.scroll + SESSION_LIST_VISIBLE {
            self.scroll = if index >= SESSION_LIST_VISIBLE - 1 {
                index - (SESSION_LIST_VISIBLE - 1)
            } else {
                0
            };
        } else if index < self.scroll {
            self.scroll = index;
        }
    }

    /// Keeps the selection and the scroll within a list of `len` names, as
    /// after a name was deleted.
    pub fn clamp_to(&mut self, len: usize)
        ensures
            final(self).selected == if old(self).selected < sat_sub(len as int, 1) {
                old(self).selected as int
            } else {
                sat_sub(len as int, 1)
            },
            ({
                let s1 = if final(self).selected < old(self).scroll {
                    final(self).selected as int
                } else {
                    old(self).scroll as int
                };
                final(self).scroll == if len > 0 && s1 > sat_sub(len as int, SESSION_LIST_VISIBLE as int) {
                    sat_sub(len as int, SESSION_LIST_VISIBLE as int)
                } else {
                    s1
                }
            }),
    {
        let last = if len > 0 {
            len - 1
        } else {
            0
        };
        if self.selected > last {
            self.selected = last;
        }
        if self.selected < self.scroll {
            self.scroll = self.selected;
        }
        let top = if len >= SESSION_LIST_VISIBLE {
            len - SESSION_LIST_VISIBLE
        } else {
            0
        };
        if len > 0 && self.scroll > top {
            self.scroll = top;
        }
    }
}

/// A character may be added to a name of `len` bytes: it is printable, the
/// name is below `limit` bytes, and it is not `'/'` unless slashes are
/// allowed.
pub open spec fn name_char_allowed_spec(c: char, len: int, limit: int, slash_allowed: bool) -> bool {
    c as u32 > 31 && (slash_allowed || c != '/') && len < limit
}

/// [`name_char_allowed_spec`].
pub fn name_char_allowed(c: char, len: usize, limit: usize, slash_allowed: bool) -> (r: bool)
    ensures
        r == name_char_allowed_spec(c, len as int, limit as int, slash_allowed),
{
    (c as u32) > 31 && c != '\0' && (slash_allowed || c != '/') && len < limit
}

/// Longest name, in bytes, a session is saved under.
pub const SESSION_NAME_LIMIT: usize = 64;

/// Longest name, in bytes, a workspace is renamed to.
pub const WORKSPACE_NAME_LIMIT: usize = 32;

/// The typed characters a name takes, one by one: those that
/// [`name_char_allowed_spec`] admits after the ones before.
pub open spec fn typed_name(start: Seq<char>, codes: Seq<u32>, limit: int, slash_allowed: bool) -> Seq<char>
    decreases codes.len(),
{
    if codes.len() == 0 {
        start
    } else {
        let before = typed_name(start, codes.drop_last(), limit, slash_allowed);
        let cp = codes.last();
        if is_scalar_value(cp) && name_char_allowed_spec(
            cp as char,
            vstd::utf8::encode_utf8(before).len() as int,
            limit,
            slash_allowed,
        ) {
            before.push(cp as char)
        } else {
            before
        }
    }
}

/// Adds the typed characters to a name, as [`typed_name`].
pub fn push_typed(name: &mut String, codes: &[u32], limit: usize, slash_allowed: bool)
    ensures
        final(name)@ == typed_name(old(name)@, codes@, limit as int, slash_allowed),
{
    let mut i: usize = 0;
    while i < codes.len()
        invariant
            i <= codes@.len(),
            name@ == typed_name(old(name)@, codes@.subrange(0, i as int), limit as int, slash_allowed),
        decreases codes@.len() - i,
    {
        let ghost q = codes@.subrange(0, i as int + 1);
        assert(q.drop_last() =~= codes@.subrange(0, i as int));
        assert(q.last() == codes@[i as int]);
        match crate::terminal::input::char_from_code(codes[i]) {
            Some(c) => {
                proof {
                    crate::terminal::input::lemma_char_of_scalar(codes@[i as int], c);
                }
                let len = name.as_str().as_bytes().len();
                if name_char_allowed(c, len, limit, slash_allowed) {
                    name.push(c);
                }
            },
            None => {},
        }
        i += 1;
    }
    assert(codes@.subrange(0, codes@.len() as int) == codes@);
}

/// A name given by typing: the text without surrounding white space, when
/// that is not empty.
pub fn committed_name(buf: &str) -> (r: Option<String>)
    ensures
        match r {
            Some(n) => n@ == crate::text::trim_spec(buf@) && n@.len() > 0,
            None => crate::text::trim_spec(buf@).len() == 0,
        },
{
    let t = crate::text::trim_string(buf);
    if t.as_str().is_empty() {
        None
    } else {
        Some(t)
    }
}

/// The form that opens a workspace on a remote host.
pub struct SshForm {
    pub host: String,
    pub port: String,
    pub user: String,
    pub password: String,
    /// The field typed into: host, port, user, password.
    pub focus: usize,
    pub error: Option<String>,
}

impl SshForm {
    /// An empty form at port 22, with the host field focused.
    pub fn new() -> (r: Self)
        ensures
            r.host@ == Seq::<char>::empty(),
            r.port@ == "22"@,
            r.user@ == Seq::<char>::empty(),
            r.password@ == Seq::<char>::empty(),
            r.focus == 0,
            r.error is None,
    {
        SshForm {
            host: String::new(),
            port: "22".to_owned(),
            user: String::new(),
            password: String::new(),
            focus: 0,
            error: None,
        }
    }

    /// Focuses the next field, from the password back to the host.
    pub fn next_field(&mut self)
        requires
            old(self).focus < usize::MAX,
        ensures
            final(self).focus == (old(self).focus + 1) % 4,
            final(self).host == old(self).host,
            final(self).port == old(self).port,
            final(self).user == old(self).user,
            final(self).password == old(self).password,
    {
        self.focus = (self.focus + 1) % 4;
    }

    /// The focused field's text.
    pub open spec fn focused(&self) -> Seq<char> {
        if self.focus == 0 {
            self.host@
        } else if self.focus == 1 {
            self.port@
        } else if self.focus == 2 {
            self.user@
        } else {
            self.password@
        }
    }

    /// The fields other than the focused one are as in `other`.
    pub open spec fn others_same(&self, other: &SshForm) -> bool {
        &&& self.focus == other.focus
        &&& (self.focus != 0 ==> self.host@ == other.host@)
        &&& (self.focus != 1 ==> self.port@ == other.port@)
        &&& (self.focus != 2 ==> self.user@ == other.user@)
        &&& (self.focus < 3 ==> self.password@ == other.password@)
    }

    /// Backspace: removes the focused field's last character.
    pub fn backspace(&mut self)
        ensures
            final(self).focused() == if old(self).focused().len() > 0 {
                old(self).focused().drop_last()
            } else {
                old(self).focused()
            },
            final(self).others_same(&*old(self)),
    {
        let f = if self.focus == 0 {
            &mut self.host
        } else if self.focus == 1 {
            &mut self.port
        } else if self.focus == 2 {
            &mut self.user
        } else {
            &mut self.password
        };
        f.pop();
    }

    /// Typing: every valid character goes into the focused field.
    pub fn type_chars(&mut self, codes: &[u32])
        ensures
            final(self).focused() == old(self).focused() + scalar_chars(codes@),
            final(self).others_same(&*old(self)),
    {
        let (chars, _) = crate::terminal::input::typed_input(codes);
        let f = if self.focus == 0 {
            &mut self.host
        } else if self.focus == 1 {
            &mut self.port
        } else if self.focus == 2 {
            &mut self.user
        } else {
            &mut self.password
        };
        crate::text::push_chars(f, chars.as_slice());
    }

    /// The port: the field read as a number that fits a port, else 22.
    pub fn port_number(&self) -> (r: u16)
        ensures
            r == match crate::minimap::parse_unsigned_spec(self.port@, 65535) {
                Some(v) => v as u16,
                None => 22u16,
            },
    {
        let v = crate::text::chars_of(self.port.as_str());
        match crate::minimap::parse_unsigned(v.as_slice(), 65535) {
            Some(p) => p as u16,
            None => 22,
        }
    }

    /// The password as shown: one bullet per byte of it.
    pub fn masked_password(&self) -> (r: String)
        ensures
            r@ == Seq::new(vstd::utf8::encode_utf8(self.password@).len(), |i: int| '\u{2022}'),
    {
        let n = self.password.as_str().as_bytes().len();
        let mut s = String::new();
        let mut i: usize = 0;
        while i < n
            invariant
                i <= n,
                n == vstd::utf8::encode_utf8(self.password@).len(),
                s@ == Seq::new(i as nat, |j: int| '\u{2022}'),
            decreases n - i,
        {
            s.push('\u{2022}');
            assert(s@ =~= Seq::new((i + 1) as nat, |j: int| '\u{2022}'));
            i += 1;
        }
        s
    }
}

/// The name of a workspace on a remote host: `user@host`.
pub fn remote_workspace_name(user: &str, host: &str) -> (r: String)
    ensures
        r@ == user@ + "@"@ + host@,
{
    let mut s = String::new();
    s.push_str(user);
    s.push_str("@");
    s.push_str(host);
    s
}

/// Where the focused tab is, for the status bar, on a remote host:
/// `ssh://user@host:port path`.
pub fn remote_location(user: &str, host: &str, port: u16, path: &str) -> (r: String)
    ensures
        r@ == "ssh://"@ + user@ + "@"@ + host@ + ":"@ + crate::text::dec_spec(port as nat) + " "@ + path@,
{
    let mut s = String::new();
    s.push_str("ssh://");
    s.push_str(user);
    s.push_str("@");
    s.push_str(host);
    s.push_str(":");
    crate::text::push_decimal(&mut s, port as u64);
    s.push_str(" ");
    s.push_str(path);
    s
}

/// A second click on the same row within 400 ms is a double click.
pub fn is_double_click(previous: Option<usize>, elapsed_ms: u64, row: usize) -> (r: bool)
    ensures
        r == (previous == Some(row) && elapsed_ms < 400),
{
    match previous {
        Some(p) => p == row && elapsed_ms < 400,
        None => false,
    }
}

/// The ratio, in ten-thousandths, that dragging a separator to `pos` sets
/// for a split whose area starts at `origin` and is `total` long: the share
/// of the area before the pointer, rounded up so that the layout puts the
/// separator under the pointer, kept between the least and the most a
/// drag can set; none when the area has no room.
pub open spec fn drag_ratio_spec(pos: int, origin: int, total: int) -> Option<u16> {
    let avail = total - crate::split::SEPARATOR_PX;
    if avail > 0 {
        let n = (pos - origin) * crate::split::RATIO_ONE;
        let q = if n > 0 {
            crate::tab_bar::trunc_div(n + avail - 1, avail)
        } else {
            crate::tab_bar::trunc_div(n, avail)
        };
        Some(
            if q < crate::split::RATIO_MIN {
                crate::split::RATIO_MIN
            } else if q > crate::split::RATIO_MAX {
                crate::split::RATIO_MAX
            } else {
                q as u16
            },
        )
    } else {
        None
    }
}

/// [`drag_ratio_spec`]; a drag never sets a ratio outside the bounds.
pub fn drag_ratio(pos: i32, origin: i32, total: i32) -> (r: Option<u16>)
    ensures
        r == drag_ratio_spec(pos as int, origin as int, total as int),
        r matches Some(x) ==> crate::split::RATIO_MIN <= x <= crate::split::RATIO_MAX,
{
    let avail: i64 = total as i64 - crate::split::SEPARATOR_PX as i64;
    if avail <= 0 {
        return None;
    }
    let d: i64 = pos as i64 - origin as i64;
    assert(-4294967296 * 10000 <= d * 10000 <= 4294967296 * 10000) by (nonlinear_arith)
        requires
            -4294967296 <= d <= 4294967296,
    ;
    let num: i64 = d * (crate::split::RATIO_ONE as i64);
    let q = if num > 0 {
        crate::tab_bar::div_toward_zero(num + avail - 1, avail)
    } else {
        crate::tab_bar::div_toward_zero(num, avail)
    };
    Some(
        if q < crate::split::RATIO_MIN as i64 {
            crate::split::RATIO_MIN
        } else if q > crate::split::RATIO_MAX as i64 {
            crate::split::RATIO_MAX
        } else {
            q as u16
        },
    )
}

/// Dragging a separator to a pixel past the start of its area, over an
/// area of at most [`crate::split::RATIO_ONE`] pixels besides the
/// separator, sets a ratio whose share of the area ends at that pixel,
/// when the ratio is within the bounds a drag can set.
pub proof fn lemma_drag_lands_at_pointer(pos: int, origin: int, total: int)
    requires
        0 < total - crate::split::SEPARATOR_PX <= crate::split::RATIO_ONE,
        pos > origin,
        drag_ratio_spec(pos, origin, total) matches Some(r) && crate::split::RATIO_MIN < r
            < crate::split::RATIO_MAX,
    ensures
        crate::tab_bar::trunc_div(
            (total - crate::split::SEPARATOR_PX) * drag_ratio_spec(pos, origin, total)->0 as int,
            crate::split::RATIO_ONE as int,
        ) == pos - origin,
{
    let a = total - crate::split::SEPARATOR_PX;
    let d = pos - origin;
    let n = d * 10000;
    assert(n > 0) by (nonlinear_arith)
        requires
            d > 0,
            n == d * 10000,
    ;
    let q = (n + a - 1) / a;
    assert(q == crate::tab_bar::trunc_div(n + a - 1, a));
    let r = drag_ratio_spec(pos, origin, total)->0 as int;
    assert(r == q);
    assert(q * a <= n + a - 1 < q * a + a) by (nonlinear_arith)
        requires
            a > 0,
            n + a - 1 >= 0,
            q == (n + a - 1) / a,
    ;
    assert(a * q / 10000 == d) by (nonlinear_arith)
        requires
            0 < a <= 10000,
            n == d * 10000,
            q * a <= n + a - 1 < q * a + a,
    ;
    assert(a * r >= 0) by (nonlinear_arith)
        requires
            a > 0,
            r > 0,
    ;
}

/// The keys of one frame that the help and the session manager read.
pub struct OverlayKeys {
    pub f1: bool,
    pub f2: bool,
    pub escape: bool,
    pub enter: bool,
    /// Backspace, pressed or repeating.
    pub backspace: bool,
    /// Up, pressed or repeating.
    pub up: bool,
    /// Down, pressed or repeating.
    pub down: bool,
    pub s: bool,
    pub d: bool,
    /// The wheel's movement, in notches.
    pub wheel: i32,
    /// The characters typed, as code points.
    pub typed: Vec<u32>,
}

/// Whether the help and the session manager are shown, the help's scroll,
/// the session list, and the name being typed to save a session.
pub struct Overlays {
    pub show_help: bool,
    pub help_scroll: i32,
    pub show_sessions: bool,
    pub list: SessionList,
    pub name_input: Option<String>,
}

/// [`Overlays`] as plain values.
pub struct OverlaysView {
    pub show_help: bool,
    pub help_scroll: i32,
    pub show_sessions: bool,
    pub list: SessionList,
    pub name_input: Option<Seq<char>>,
}

impl Overlays {
    /// The overlays as plain values.
    pub open spec fn view(&self) -> OverlaysView {
        OverlaysView {
            show_help: self.show_help,
            help_scroll: self.help_scroll,
            show_sessions: self.show_sessions,
            list: self.list,
            name_input: match self.name_input {
                Some(n) => Some(n@),
                None => None,
            },
        }
    }

    /// Nothing shown.
    pub fn new() -> (r: Self)
        ensures
            r@ == (OverlaysView {
                show_help: false,
                help_scroll: 0,
                show_sessions: false,
                list: SessionList { selected: 0, scroll: 0 },
                name_input: None,
            }),
    {
        Overlays {
            show_help: false,
            help_scroll: 0,
            show_sessions: false,
            list: SessionList::new(),
            name_input: None,
        }
    }
}

/// The overlays after the keys that show and hide them: F1 toggles the
/// help, which opens at the top and hides the session manager; Esc hides
/// the help; the wheel scrolls the help when the scroll fits an `i32`; F2
/// toggles the session manager, which opens at the top of its list with
/// no name typed and hides the help. The flag says the session manager
/// was opened, so that its list is read again.
pub open spec fn overlay_keys_spec(o: OverlaysView, f1: bool, f2: bool, escape: bool, wheel: int) -> (OverlaysView, bool) {
    let (help, sessions, scroll) = if f1 {
        if !o.show_help {
            (true, false, 0int)
        } else {
            (false, o.show_sessions, o.help_scroll as int)
        }
    } else if o.show_help && escape {
        (false, o.show_sessions, o.help_scroll as int)
    } else {
        (o.show_help, o.show_sessions, o.help_scroll as int)
    };
    let next = scroll - wheel * 24;
    let scroll2 = if help && wheel != 0 && i32::MIN <= next <= i32::MAX {
        if next > 0 {
            next
        } else {
            0
        }
    } else {
        scroll
    };
    if f2 && !sessions {
        (
            OverlaysView {
                show_help: false,
                help_scroll: scroll2 as i32,
                show_sessions: true,
                list: SessionList { selected: 0, scroll: 0 },
                name_input: None,
            },
            true,
        )
    } else {
        (
            OverlaysView {
                show_help: help,
                help_scroll: scroll2 as i32,
                show_sessions: if f2 {
                    false
                } else {
                    sessions
                },
                ..o
            },
            false,
        )
    }
}

/// Applies the keys that show and hide the help and the session manager,
/// as [`overlay_keys_spec`] says; returns whether the session manager was
/// opened.
pub fn overlay_keys(o: &mut Overlays, k: &OverlayKeys) -> (opened: bool)
    ensures
        (final(o)@, opened) == overlay_keys_spec(old(o)@, k.f1, k.f2, k.escape, k.wheel as int),
{
    if k.f1 {
        o.show_help = !o.show_help;
        if o.show_help {
            o.show_sessions = false;
            o.help_scroll = 0;
        }
    } else if o.show_help && k.escape {
        o.show_help = false;
    }
    if o.show_help && k.wheel != 0 {
        let next = o.help_scroll as i64 - k.wheel as i64 * 24;
        if next >= i32::MIN as i64 && next <= i32::MAX as i64 {
            o.help_scroll = help_scroll_after(o.help_scroll, k.wheel);
        }
    }
    if k.f2 {
        o.show_sessions = !o.show_sessions;
        if o.show_sessions {
            o.show_help = false;
            o.list = SessionList::new();
            o.name_input = None;
            return true;
        }
    }
    false
}

/// What the session manager's keys ask of the caller.
pub struct SessionKeysOutcome {
    /// Save the sessions under this name.
    pub save_as: Option<String>,
    /// Delete the chosen session.
    pub delete: bool,
    /// Load the chosen session.
    pub load: bool,
}

/// The session manager after its keys, with `count` names listed, and
/// what is asked: while a name is typed, the typed characters extend it,
/// Backspace drops its last one, Enter with a name saves under it and Esc
/// drops it; else Up and Down move the selection (Down while the list's
/// numbers leave room), S starts a name, D deletes the chosen session when
/// there is one, Enter loads it and Esc hides the manager.
pub open spec fn session_keys_spec(
    o: OverlaysView,
    typed: Seq<u32>,
    backspace: bool,
    enter: bool,
    escape: bool,
    up: bool,
    down: bool,
    s: bool,
    d: bool,
    count: nat,
) -> (OverlaysView, Option<Seq<char>>, bool, bool) {
    match o.name_input {
        Some(name) => {
            let n1 = typed_name(name, typed, SESSION_NAME_LIMIT as int, false);
            let n2 = if backspace && n1.len() > 0 {
                n1.drop_last()
            } else {
                n1
            };
            if enter && n2.len() > 0 {
                (OverlaysView { name_input: None, ..o }, Some(n2), false, false)
            } else if !escape {
                (OverlaysView { name_input: Some(n2), ..o }, None, false, false)
            } else {
                (OverlaysView { name_input: None, ..o }, None, false, false)
            }
        },
        None => {
            let l1 = if up {
                list_up_spec(o.list)
            } else {
                o.list
            };
            let l2 = if down && l1.selected < usize::MAX && l1.scroll < usize::MAX - 15 {
                list_down_spec(l1, count)
            } else {
                l1
            };
            (
                OverlaysView {
                    list: l2,
                    name_input: if s {
                        Some(Seq::empty())
                    } else {
                        None
                    },
                    show_sessions: !escape && o.show_sessions,
                    ..o
                },
                None,
                d && count > 0,
                enter,
            )
        },
    }
}

/// Applies the session manager's keys, as [`session_keys_spec`] says.
pub fn session_keys(o: &mut Overlays, k: &OverlayKeys, count: usize) -> (r: SessionKeysOutcome)
    ensures
        ({
            let (v, save, del, load) = session_keys_spec(
                old(o)@,
                k.typed@,
                k.backspace,
                k.enter,
                k.escape,
                k.up,
                k.down,
                k.s,
                k.d,
                count as nat,
            );
            &&& final(o)@ == v
            &&& match r.save_as {
                Some(n) => save == Some(n@),
                None => save is None,
            }
            &&& r.delete == del
            &&& r.load == load
        }),
{
    if let Some(mut name) = o.name_input.take() {
        push_typed(&mut name, k.typed.as_slice(), SESSION_NAME_LIMIT, false);
        if k.backspace {
            name.pop();
        }
        if k.enter && !name.as_str().is_empty() {
            return SessionKeysOutcome { save_as: Some(name), delete: false, load: false };
        }
        if !k.escape {
            o.name_input = Some(name);
        }
        return SessionKeysOutcome { save_as: None, delete: false, load: false };
    }
    if k.up {
        o.list.up();
    }
    if k.down && o.list.selected < usize::MAX && o.list.scroll < usize::MAX - 15 {
        o.list.down(count);
    }
    if k.s {
        o.name_input = Some(String::new());
    }
    if k.escape {
        o.show_sessions = false;
    }
    SessionKeysOutcome { save_as: None, delete: k.d && count > 0, load: k.enter }
}

/// The session the manager's selection stands for among `count` names:
/// the selected one, or the last when the selection is past it; none when
/// there is no name.
pub fn chosen_session(list: SessionList, count: usize) -> (r: Option<usize>)
    ensures
        r == (if count == 0 {
            None
        } else if list.selected < count - 1 {
            Some(list.selected)
        } else {
            Some((count - 1) as usize)
        }),
{
    if count == 0 {
        None
    } else if list.selected < count - 1 {
        Some(list.selected)
    } else {
        Some(count - 1)
    }
}

/// The help's scroll after the wheel moved: 24 pixels a notch, not above
/// the top.
pub fn help_scroll_after(scroll: i32, wheel: i32) -> (r: i32)
    requires
        i32::MIN <= scroll - wheel * 24 <= i32::MAX,
    ensures
        r == if scroll - wheel * 24 > 0 {
            scroll - wheel * 24
        } else {
            0
        },
{
    let v = scroll as i64 - (wheel as i64) * 24;
    if v > 0 {
        v as i32
    } else {
        0
    }
}

/// A line cut into pieces of `n` characters; an empty line is one empty
/// piece.
pub open spec fn chunks_spec(line: Seq<char>, n: nat) -> Seq<Seq<char>>
    decreases line.len(),
{
    if n == 0 || line.len() <= n {
        seq![line]
    } else {
        seq![line.take(n as int)] + chunks_spec(line.skip(n as int), n)
    }
}

/// The lines of the prompt as shown, each piece of text between newlines
/// cut into pieces of `n` characters.
pub open spec fn wrap_spec(parts: Seq<Seq<char>>, n: nat) -> Seq<Seq<char>>
    decreases parts.len(),
{
    if parts.len() == 0 {
        Seq::empty()
    } else {
        wrap_spec(parts.drop_last(), n) + chunks_spec(parts.last(), n)
    }
}

/// The pieces joined back together.
pub open spec fn flatten(pieces: Seq<Seq<char>>) -> Seq<char>
    decreases pieces.len(),
{
    if pieces.len() == 0 {
        Seq::empty()
    } else {
        flatten(pieces.drop_last()) + pieces.last()
    }
}

/// A single piece joined is itself.
proof fn lemma_flatten_one(x: Seq<char>)
    ensures
        flatten(seq![x]) == x,
{
    let s = seq![x];
    assert(s.len() == 1);
    assert(s.drop_last() =~= Seq::<Seq<char>>::empty());
    assert(flatten(s.drop_last()) == Seq::<char>::empty());
    assert(s.last() == x);
    assert(flatten(s) == flatten(s.drop_last()) + s.last());
    assert(Seq::<char>::empty() + x =~= x);
}

/// Joining two lists of pieces.
proof fn lemma_flatten_concat(a: Seq<Seq<char>>, b: Seq<Seq<char>>)
    ensures
        flatten(a + b) == flatten(a) + flatten(b),
    decreases b.len(),
{
    if b.len() == 0 {
        assert(a + b =~= a);
        assert(flatten(b) =~= Seq::<char>::empty());
        assert(flatten(a) + flatten(b) =~= flatten(a));
    } else {
        lemma_flatten_concat(a, b.drop_last());
        assert((a + b).drop_last() =~= a + b.drop_last());
        assert((a + b).last() == b.last());
        assert(flatten(a) + flatten(b.drop_last()) + b.last() =~= flatten(a) + (flatten(b.drop_last())
            + b.last()));
    }
}

/// Cutting a line into pieces of `n` characters loses nothing: the pieces
/// joined give back the line, and no piece is longer than `n`.
pub proof fn lemma_chunks_lossless(line: Seq<char>, n: nat)
    requires
        n > 0,
    ensures
        flatten(chunks_spec(line, n)) == line,
        forall|i: int| 0 <= i < chunks_spec(line, n).len() ==> (#[trigger] chunks_spec(line, n)[i]).len() <= n,
    decreases line.len(),
{
    if line.len() <= n {
        lemma_flatten_one(line);
    } else {
        let head = line.take(n as int);
        let rest = line.skip(n as int);
        lemma_chunks_lossless(rest, n);
        lemma_flatten_concat(seq![head], chunks_spec(rest, n));
        lemma_flatten_one(head);
        assert(head + rest =~= line);
        let c = chunks_spec(line, n);
        assert forall|i: int| 0 <= i < c.len() implies (#[trigger] c[i]).len() <= n by {
            if i > 0 {
                assert(c[i] == chunks_spec(rest, n)[i - 1]);
            }
        }
    }
}

/// Wrapping the prompt loses nothing: the pieces of each line joined give
/// back the line, in order, and no piece is longer than a line holds.
pub proof fn lemma_wrap_lossless(parts: Seq<Seq<char>>, n: nat)
    requires
        n > 0,
    ensures
        flatten(wrap_spec(parts, n)) == flatten(parts),
        forall|i: int| 0 <= i < wrap_spec(parts, n).len() ==> (#[trigger] wrap_spec(parts, n)[i]).len() <= n,
    decreases parts.len(),
{
    if parts.len() > 0 {
        lemma_wrap_lossless(parts.drop_last(), n);
        lemma_chunks_lossless(parts.last(), n);
        lemma_flatten_concat(wrap_spec(parts.drop_last(), n), chunks_spec(parts.last(), n));
        let w = wrap_spec(parts, n);
        let a = wrap_spec(parts.drop_last(), n);
        let c = chunks_spec(parts.last(), n);
        assert forall|i: int| 0 <= i < w.len() implies (#[trigger] w[i]).len() <= n by {
            if i < a.len() {
                assert(w[i] == a[i]);
            } else {
                assert(w[i] == c[i - a.len()]);
            }
        }
    } else {
        assert(flatten(wrap_spec(parts, n)) =~= flatten(parts));
    }
}

/// Views of strings.
pub open spec fn texts(v: Seq<String>) -> Seq<Seq<char>> {
    v.map_values(|t: String| t@)
}

/// The prompt's text wrapped at `per_line` characters, as [`wrap_spec`].
pub fn wrap_prompt(input: &str, per_line: usize) -> (r: Vec<String>)
    requires
        per_line > 0,
    ensures
        texts(r@) == wrap_spec(crate::text::split_spec(input@, '\n'), per_line as nat),
{
    let v = crate::text::chars_of(input);
    let parts = crate::text::split_chars(&v, '\n');
    let ghost ps = crate::text::split_spec(input@, '\n');
    let mut out: Vec<String> = Vec::new();
    let mut i: usize = 0;
    while i < parts.len()
        invariant
            per_line > 0,
            i <= parts@.len(),
            parts@.len() == ps.len(),
            forall|k: int| 0 <= k < ps.len() ==> (#[trigger] parts@[k])@ == ps[k],
            texts(out@) == wrap_spec(ps.subrange(0, i as int), per_line as nat),
        decreases parts@.len() - i,
    {
        let ghost q = ps.subrange(0, i as int + 1);
        assert(q.drop_last() =~= ps.subrange(0, i as int));
        assert(q.last() == ps[i as int]);
        let line = &parts[i];
        let ghost base = texts(out@);
        let ghost all = chunks_spec(line@, per_line as nat);
        let mut start: usize = 0;
        assert(line@.skip(0) =~= line@);
        while line.len() - start > per_line
            invariant
                per_line > 0,
                start <= line@.len(),
                line@.len() == line.len(),
                all == chunks_spec(line@, per_line as nat),
                texts(out@) + chunks_spec(line@.skip(start as int), per_line as nat) == base + all,
            decreases line@.len() - start,
        {
            let piece = crate::text::string_of_range(line.as_slice(), start, start + per_line);
            let ghost rest = line@.skip(start as int);
            assert(piece@ =~= rest.take(per_line as int));
            assert(rest.skip(per_line as int) =~= line@.skip(start + per_line));
            let ghost before = out@;
            out.push(piece);
            assert(texts(out@) =~= texts(before).push(piece@));
            proof {
                let tail = chunks_spec(rest.skip(per_line as int), per_line as nat);
                assert(chunks_spec(rest, per_line as nat) == seq![rest.take(per_line as int)] + tail);
                assert(texts(out@) + tail =~= texts(before) + chunks_spec(rest, per_line as nat));
            }
            start = start + per_line;
        }
        let last = crate::text::string_of_range(line.as_slice(), start, line.len());
        let ghost rest = line@.skip(start as int);
        assert(last@ =~= rest);
        let ghost before = out@;
        out.push(last);
        proof {
            assert(chunks_spec(rest, per_line as nat) == seq![rest]);
            assert(texts(out@) =~= texts(before).push(last@));
            assert(texts(out@) =~= base + all);
            assert(wrap_spec(q, per_line as nat) == wrap_spec(ps.subrange(0, i as int), per_line as nat)
                + all);
        }
        i += 1;
    }
    assert(ps.subrange(0, ps.len() as int) == ps);
    out
}

/// Where the floating AI prompt is drawn over a panel, and its lines.
pub struct PromptPanel {
    pub x: i128,
    pub y: i128,
    pub w: i128,
    pub h: i128,
    /// Height of the `Ask AI` label above the text.
    pub label_h: i128,
    /// Width of the text area.
    pub text_w: i128,
    pub text_x: i128,
    pub text_y: i128,
    /// The prompt wrapped to the text area (see [`wrap_prompt`]).
    pub lines: Vec<String>,
}

/// Width of the prompt panel over a panel `w` wide: three quarters of it,
/// between 300 and 700 pixels.
pub open spec fn prompt_width(w: int) -> int {
    let q = crate::tab_bar::trunc_div(w * 3, 4);
    let a = if q < 700 {
        q
    } else {
        700
    };
    if a > 300 {
        a
    } else {
        300
    }
}

/// Characters per line of the prompt panel: as many cells as the text area
/// holds, at least one.
pub open spec fn prompt_chars_per_line(w: int, cell_width: int) -> int {
    let q = crate::tab_bar::trunc_div(prompt_width(w) - 24, cell_width);
    if q > 1 {
        q
    } else {
        1
    }
}

/// The prompt panel over the panel `rect`: centered, 8 pixels above the
/// panel's bottom, with 12 pixels of padding, a label a cell plus 4 high,
/// and a line per piece of the wrapped prompt (at least one).
pub fn prompt_panel(rect: crate::split::PanelRect, cell_width: i32, cell_height: i32, input: &str) -> (r: PromptPanel)
    requires
        cell_width != 0,
    ensures
        ({
            let w = prompt_width(rect.w as int);
            let n = prompt_chars_per_line(rect.w as int, cell_width as int);
            let lines = wrap_spec(crate::text::split_spec(input@, '\n'), n as nat);
            let count = if lines.len() > 1 {
                lines.len() as int
            } else {
                1
            };
            let h = cell_height + 4 + count * cell_height + 28;
            let y = rect.y + rect.h - h - 8;
            &&& r.w == w
            &&& r.x == rect.x + crate::tab_bar::trunc_div(rect.w - w, 2)
            &&& r.label_h == cell_height + 4
            &&& r.text_w == w - 24
            &&& r.h == h
            &&& r.y == y
            &&& r.text_x == r.x + 12
            &&& r.text_y == y + cell_height + 4 + 6
            &&& texts(r.lines@) == lines
        }),
{
    let q = crate::tab_bar::div_toward_zero(rect.w as i64 * 3, 4);
    let a: i64 = if q < 700 {
        q
    } else {
        700
    };
    let w: i64 = if a > 300 {
        a
    } else {
        300
    };
    let x: i64 = rect.x as i64 + crate::tab_bar::div_toward_zero(rect.w as i64 - w, 2);
    let text_w: i64 = w - 24;
    let cw: i64 = cell_width as i64;
    let per: i64 = if cw > 0 {
        crate::tab_bar::div_toward_zero(text_w, cw)
    } else {
        let p = crate::tab_bar::div_toward_zero(text_w, -cw);
        assert(crate::tab_bar::trunc_div(text_w as int, cw as int) == -p) by {
            lemma_trunc_div_neg(text_w as int, cw as int);
        }
        -p
    };
    let per_line: usize = if per > 1 {
        assert(per <= 700);
        per as usize
    } else {
        1
    };
    let lines = wrap_prompt(input, per_line);
    let count: i128 = if lines.len() > 1 {
        lines.len() as i128
    } else {
        1
    };
    let ch: i128 = cell_height as i128;
    assert(-2147483648 * 18446744073709551615 <= count * ch <= 18446744073709551615 * 2147483647)
        by (nonlinear_arith)
        requires
            1 <= count <= 18446744073709551615,
            -2147483648 <= ch <= 2147483647,
    ;
    let h: i128 = ch + 4 + count * ch + 28;
    let y: i128 = rect.y as i128 + rect.h as i128 - h - 8;
    PromptPanel {
        x: x as i128,
        y,
        w: w as i128,
        h,
        label_h: ch + 4,
        text_w: text_w as i128,
        text_x: x as i128 + 12,
        text_y: y + ch + 4 + 6,
        lines,
    }
}

/// Quotient rounded toward zero by a negative divisor.
proof fn lemma_trunc_div_neg(a: int, b: int)
    requires
        b < 0,
    ensures
        crate::tab_bar::trunc_div(a, b) == -crate::tab_bar::trunc_div(a, -b),
{
    if a >= 0 {
        lemma_div_neg_divisor(a, b);
    } else {
        lemma_div_neg_divisor(-a, b);
    }
}

/// Dividing a non-negative number by a negative one.
proof fn lemma_div_neg_divisor(a: int, b: int)
    by (nonlinear_arith)
    requires
        a >= 0,
        b < 0,
    ensures
        a / b == -(a / (-b)),
{
}

/// What the session manager reports after an action.
pub enum SessionNotice {
    Exported(String),
    ExportFailed(String),
    SaveFailed(String),
    Deleted(String),
    DeleteFailed(String),
    RestoreFailed(String),
    Corrupted,
    ImportFailed(String),
}

impl SessionNotice {
    /// The text of the notice.
    pub fn text(&self) -> (r: String)
        ensures
            r@ == match self {
                SessionNotice::Exported(n) => "Session '"@ + n@ + "' exported"@,
                SessionNotice::ExportFailed(e) => "Export failed: "@ + e@,
                SessionNotice::SaveFailed(e) => "Save failed: "@ + e@,
                SessionNotice::Deleted(n) => "Session '"@ + n@ + "' deleted"@,
                SessionNotice::DeleteFailed(e) => e@,
                SessionNotice::RestoreFailed(e) => "Restore failed: "@ + e@,
                SessionNotice::Corrupted => "Session corrupted or incompatible"@,
                SessionNotice::ImportFailed(e) => "Import failed: "@ + e@,
            },
    {
        let mut s = String::new();
        match self {
            SessionNotice::Exported(n) => {
                s.push_str("Session '");
                s.push_str(n.as_str());
                s.push_str("' exported");
            },
            SessionNotice::ExportFailed(e) => {
                s.push_str("Export failed: ");
                s.push_str(e.as_str());
            },
            SessionNotice::SaveFailed(e) => {
                s.push_str("Save failed: ");
                s.push_str(e.as_str());
            },
            SessionNotice::Deleted(n) => {
                s.push_str("Session '");
                s.push_str(n.as_str());
                s.push_str("' deleted");
            },
            SessionNotice::DeleteFailed(e) => {
                s.push_str(e.as_str());
            },
            SessionNotice::RestoreFailed(e) => {
                s.push_str("Restore failed: ");
                s.push_str(e.as_str());
            },
            SessionNotice::Corrupted => {
                s.push_str("Session corrupted or incompatible");
            },
            SessionNotice::ImportFailed(e) => {
                s.push_str("Import failed: ");
                s.push_str(e.as_str());
            },
        }
        s
    }
}

/// Height of a column of the help: each section's title line and its
/// entries' lines, with a 10-pixel gap between sections.
pub open spec fn column_height(sizes: Seq<usize>, line_h: int) -> int
    decreases sizes.len(),
{
    if sizes.len() == 0 {
        0
    } else {
        column_height(sizes.drop_last(), line_h) + (if sizes.len() > 1 {
            10int
        } else {
            0int
        }) + line_h + sizes.last() * line_h
    }
}

/// Number of lines of a help column: each section's header and entries.
pub open spec fn column_lines(sizes: Seq<usize>) -> int
    decreases sizes.len(),
{
    if sizes.len() == 0 {
        0
    } else {
        column_lines(sizes.drop_last()) + 1 + sizes.last()
    }
}

proof fn lemma_column_lines_prefix(sizes: Seq<usize>, i: int)
    requires
        0 <= i <= sizes.len(),
    ensures
        0 <= column_lines(sizes.subrange(0, i)) <= column_lines(sizes),
    decreases sizes.len(),
{
    if i == sizes.len() {
        assert(sizes.subrange(0, i) == sizes);
        lemma_column_lines_nonneg(sizes);
    } else {
        lemma_column_lines_prefix(sizes.drop_last(), i);
        assert(sizes.drop_last().subrange(0, i) == sizes.subrange(0, i));
    }
}

proof fn lemma_column_lines_nonneg(sizes: Seq<usize>)
    ensures
        column_lines(sizes) >= 0,
    decreases sizes.len(),
{
    if sizes.len() > 0 {
        lemma_column_lines_nonneg(sizes.drop_last());
    }
}

fn column_height_exec(sizes: &[usize], line_h: i128) -> (r: i128)
    requires
        column_lines(sizes@) <= u64::MAX,
        -2147483648 <= line_h <= 2147483649,
    ensures
        r == column_height(sizes@, line_h as int),
        -0x1_0000_0000_0000_0000_0000_0000 <= r <= 0x1_0000_0000_0000_0000_0000_0000,
{
    let mut h: i128 = 0;
    let mut i: usize = 0;
    while i < sizes.len()
        invariant
            i <= sizes@.len(),
            column_lines(sizes@) <= u64::MAX,
            -2147483648 <= line_h <= 2147483649,
            h == column_height(sizes@.subrange(0, i as int), line_h as int),
            -(column_lines(sizes@.subrange(0, i as int)) * 2147483660) <= h <= column_lines(
                sizes@.subrange(0, i as int),
            ) * 2147483660,
        decreases sizes@.len() - i,
    {
        let ghost q = sizes@.subrange(0, i as int + 1);
        assert(q.drop_last() =~= sizes@.subrange(0, i as int));
        assert(q.last() == sizes@[i as int]);
        proof {
            lemma_column_lines_prefix(sizes@, i as int + 1);
        }
        let ghost before = column_lines(sizes@.subrange(0, i as int));
        let n = sizes[i] as i128;
        assert(column_lines(q) == before + 1 + n);
        assert(0 <= before);
        assert(before + 1 + n <= 0x1_0000_0000_0000_0000);
        assert(-(n + 1) * 2147483649 <= (n + 1) * line_h <= (n + 1) * 2147483649) by (nonlinear_arith)
            requires
                0 <= n,
                -2147483648 <= line_h <= 2147483649,
        ;
        assert((n + 1) * 2147483649 <= 0x1_0000_0000_0000_0000 * 2147483649) by (nonlinear_arith)
            requires
                0 <= n + 1 <= 0x1_0000_0000_0000_0000,
        ;
        assert(-(before * 2147483660) - (n + 1) * 2147483660 == -((before + 1 + n) * 2147483660))
            by (nonlinear_arith);
        assert(before * 2147483660 + (n + 1) * 2147483660 == (before + 1 + n) * 2147483660)
            by (nonlinear_arith);
        assert((before + 1 + n) * 2147483660 <= 0x1_0000_0000_0000_0000 * 2147483660) by (nonlinear_arith)
            requires
                0 <= before + 1 + n <= 0x1_0000_0000_0000_0000,
        ;
        assert(-(0x1_0000_0000_0000_0000 * 2147483649) <= n * line_h <= 0x1_0000_0000_0000_0000
            * 2147483649) by (nonlinear_arith)
            requires
                0 <= n <= 0x1_0000_0000_0000_0000,
                -2147483648 <= line_h <= 2147483649,
        ;
        let nl = n * line_h;
        let gap: i128 = if i > 0 {
            10
        } else {
            0
        };
        let step = gap + line_h + nl;
        assert(step == gap + (n + 1) * line_h) by (nonlinear_arith)
            requires
                nl == n * line_h,
                step == gap + line_h + nl,
        ;
        h = h + step;
        i += 1;
    }
    assert(sizes@.subrange(0, sizes@.len() as int) == sizes@);
    h
}

/// Where the help is drawn.
pub struct HelpLayout {
    pub x: i128,
    pub y: i128,
    pub w: i128,
    pub h: i128,
    pub title_h: i128,
    pub footer_h: i128,
    pub body_h: i128,
    /// Height of the columns' content with its padding.
    pub content_h: i128,
    pub line_h: i128,
    pub label_size: i32,
    pub left_x: i128,
    pub right_x: i128,
    pub divider_x: i128,
    /// The scroll, limited to what the content allows.
    pub scroll: i128,
    pub max_scroll: i128,
}

/// The help's layout over the area right of the sidebar (`content_x`):
/// two columns of 420 pixels with 20 pixels of padding and a 24-pixel gap,
/// narrowed to leave 20 pixels on each side, at most the screen's height
/// less 40, centered; the scroll is kept within the content.
pub fn help_layout(
    left: &[usize],
    right: &[usize],
    screen_w: i32,
    screen_h: i32,
    content_x: i32,
    cell_height: i32,
    font_size: i32,
    scroll: i32,
) -> (r: HelpLayout)
    requires
        column_lines(left@) <= u64::MAX,
        column_lines(right@) <= u64::MAX,
    ensures
        ({
            let line_h = cell_height + 2;
            let lh = column_height(left@, line_h);
            let rh = column_height(right@, line_h);
            let content_h = (if lh > rh {
                lh
            } else {
                rh
            }) + 20;
            let title_h = cell_height + 12;
            let footer_h = cell_height + 8;
            let content_w = screen_w - content_x;
            let w = if 904 < content_w - 40 {
                904
            } else {
                content_w - 40
            };
            let full = title_h + content_h + footer_h;
            let h = if full < screen_h - 40 {
                full
            } else {
                screen_h - 40
            };
            let x = content_x + crate::tab_bar::trunc_div(content_w - w, 2);
            let body_h = h - title_h - footer_h;
            let max_scroll = if content_h - body_h > 0 {
                content_h - body_h
            } else {
                0
            };
            &&& r.line_h == line_h
            &&& r.content_h == content_h
            &&& r.title_h == title_h
            &&& r.footer_h == footer_h
            &&& r.w == w
            &&& r.h == h
            &&& r.x == x
            &&& r.y == crate::tab_bar::trunc_div(screen_h - h, 2)
            &&& r.body_h == body_h
            &&& r.label_size == crate::tab_bar::label_size_spec(font_size as int)
            &&& r.left_x == x + 20
            &&& r.right_x == x + 20 + 420 + 24
            &&& r.divider_x == x + 20 + 420 + 12
            &&& r.max_scroll == max_scroll
            &&& r.scroll == if scroll < max_scroll {
                scroll as int
            } else {
                max_scroll
            }
        }),
{
    let line_h: i128 = cell_height as i128 + 2;
    let lh = column_height_exec(left, line_h);
    let rh = column_height_exec(right, line_h);
    let content_h: i128 = (if lh > rh {
        lh
    } else {
        rh
    }) + 20;
    let title_h: i128 = cell_height as i128 + 12;
    let footer_h: i128 = cell_height as i128 + 8;
    let content_w: i128 = screen_w as i128 - content_x as i128;
    let w: i128 = if 904 < content_w - 40 {
        904
    } else {
        content_w - 40
    };
    let full = title_h + content_h + footer_h;
    let h: i128 = if full < screen_h as i128 - 40 {
        full
    } else {
        screen_h as i128 - 40
    };
    let x: i128 = content_x as i128 + trunc_div_i128(content_w - w, 2);
    let body_h = h - title_h - footer_h;
    let max_scroll: i128 = if content_h - body_h > 0 {
        content_h - body_h
    } else {
        0
    };
    let label_size: i32 = if font_size as i64 - 2 > 8 {
        font_size - 2
    } else {
        8
    };
    HelpLayout {
        x,
        y: trunc_div_i128(screen_h as i128 - h, 2),
        w,
        h,
        title_h,
        footer_h,
        body_h,
        content_h,
        line_h,
        label_size,
        left_x: x + 20,
        right_x: x + 20 + 420 + 24,
        divider_x: x + 20 + 420 + 12,
        scroll: if (scroll as i128) < max_scroll {
            scroll as i128
        } else {
            max_scroll
        },
        max_scroll,
    }
}

/// Quotient rounded toward zero by a positive number.
fn trunc_div_i128(a: i128, b: i128) -> (r: i128)
    requires
        0 < b,
        -0x1000000000000000000000000000 <= a <= 0x1000000000000000000000000000,
    ensures
        r == crate::tab_bar::trunc_div(a as int, b as int),
{
    if a >= 0 {
        a / b
    } else {
        -((-a) / b)
    }
}

/// The help's hint line: it mentions scrolling when there is more to see.
pub fn help_hint(max_scroll: i128) -> (r: &'static str)
    ensures
        r@ == if max_scroll > 0 {
            "F1 or Esc to close  \u{2022}  Scroll for more"@
        } else {
            "F1 or Esc to close"@
        },
{
    if max_scroll > 0 {
        "F1 or Esc to close  \u{2022}  Scroll for more"
    } else {
        "F1 or Esc to close"
    }
}

/// Where a dialog is drawn over the area right of the sidebar: `w` wide at
/// most (less 40 pixels of margin), `h` high at most the screen's height
/// less 40 when `capped`, centered in the area.
pub struct DialogBox {
    pub x: i128,
    pub y: i128,
    pub w: i128,
    pub h: i128,
}

/// [`DialogBox`] for a dialog that wants `want_w` by `want_h` pixels.
pub open spec fn dialog_spec(want_w: int, want_h: int, capped: bool, screen_w: int, screen_h: int, content_x: int) -> (
    int,
    int,
    int,
    int,
) {
    let content_w = screen_w - content_x;
    let w = if want_w < content_w - 40 {
        want_w
    } else {
        content_w - 40
    };
    let h = if capped && screen_h - 40 < want_h {
        screen_h - 40
    } else {
        want_h
    };
    (content_x + crate::tab_bar::trunc_div(content_w - w, 2), crate::tab_bar::trunc_div(screen_h - h, 2), w, h)
}

/// The session manager's dialog for `names` saved sessions: 480 pixels
/// wide, with a title, up to [`SESSION_LIST_VISIBLE`] rows (at least one),
/// the footer, and a line for a notice and one for the name being typed
/// when they show.
pub fn session_dialog(
    names: usize,
    has_notice: bool,
    typing: bool,
    screen_w: i32,
    screen_h: i32,
    content_x: i32,
    cell_height: i32,
) -> (r: DialogBox)
    ensures
        ({
            let line_h = cell_height + 4;
            let visible = if names < SESSION_LIST_VISIBLE {
                if names > 1 {
                    names as int
                } else {
                    1
                }
            } else {
                SESSION_LIST_VISIBLE as int
            };
            let want_h = (cell_height + 8) + 32 + visible * line_h + (line_h + 4) + (if has_notice {
                line_h
            } else {
                0
            }) + (if typing {
                line_h + 4
            } else {
                0
            });
            (r.x as int, r.y as int, r.w as int, r.h as int) == dialog_spec(
                480,
                want_h,
                true,
                screen_w as int,
                screen_h as int,
                content_x as int,
            )
        }),
{
    let line_h: i128 = cell_height as i128 + 4;
    let visible: i128 = if names < SESSION_LIST_VISIBLE {
        if names > 1 {
            names as i128
        } else {
            1
        }
    } else {
        SESSION_LIST_VISIBLE as i128
    };
    assert(-15 * 2147483652 <= visible * line_h <= 15 * 2147483652) by (nonlinear_arith)
        requires
            1 <= visible <= 15,
            -2147483644 <= line_h <= 2147483651,
    ;
    let want_h: i128 = (cell_height as i128 + 8) + 32 + visible * line_h + (line_h + 4) + (if has_notice {
        line_h
    } else {
        0
    }) + (if typing {
        line_h + 4
    } else {
        0
    });
    dialog_box(480, want_h, true, screen_w, screen_h, content_x)
}

/// The SSH dialog: 420 pixels wide, a title, four fields, an error line
/// when there is one, and the footer.
pub fn ssh_dialog(has_error: bool, screen_w: i32, screen_h: i32, content_x: i32, cell_height: i32) -> (r: DialogBox)
    ensures
        ({
            let line_h = cell_height + 6;
            let want_h = (cell_height + 8) + 32 + (line_h * 4 + 16) + (if has_error {
                line_h + 4
            } else {
                0
            }) + line_h;
            (r.x as int, r.y as int, r.w as int, r.h as int) == dialog_spec(
                420,
                want_h,
                false,
                screen_w as int,
                screen_h as int,
                content_x as int,
            )
        }),
{
    let line_h: i128 = cell_height as i128 + 6;
    let want_h: i128 = (cell_height as i128 + 8) + 32 + (line_h * 4 + 16) + (if has_error {
        line_h + 4
    } else {
        0
    }) + line_h;
    dialog_box(420, want_h, false, screen_w, screen_h, content_x)
}

fn dialog_box(want_w: i128, want_h: i128, capped: bool, screen_w: i32, screen_h: i32, content_x: i32) -> (r: DialogBox)
    requires
        0 <= want_w <= 1000,
        -0x100000000000 <= want_h <= 0x100000000000,
    ensures
        (r.x as int, r.y as int, r.w as int, r.h as int) == dialog_spec(
            want_w as int,
            want_h as int,
            capped,
            screen_w as int,
            screen_h as int,
            content_x as int,
        ),
{
    let content_w: i128 = screen_w as i128 - content_x as i128;
    let w: i128 = if want_w < content_w - 40 {
        want_w
    } else {
        content_w - 40
    };
    let h: i128 = if capped && (screen_h as i128) - 40 < want_h {
        screen_h as i128 - 40
    } else {
        want_h
    };
    DialogBox {
        x: content_x as i128 + trunc_div_i128(content_w - w, 2),
        y: trunc_div_i128(screen_h as i128 - h, 2),
        w,
        h,
    }
}

} // verus!
