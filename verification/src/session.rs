//! Saving and restoring the whole session: the workspaces, their trees of
//! panels, each tab's scrollback and its conversation with the AI.
//!
//! The types here are what a session file holds. Reading and writing the
//! file, and starting the terminals of restored tabs, are left to the
//! caller; this module decides what is saved and how it is restored.
use std::collections::VecDeque;
use vstd::prelude::*;

use crate::ai::conversation::{
    duplicate_tool_calls, tool_calls_view, ChatMessage, MessageView, ToolCall, ToolCallView,
};
use crate::text::{str_eq, strings_view};

verus! {

/// The version of the session format that is written and read.
pub const SESSION_VERSION: u32 = 1;

/// Most lines of scrollback saved per tab.
pub const MAX_SCROLLBACK_LINES: usize = 5000;

/// One tool call of a saved message.
pub struct SessionToolCall {
    pub id: String,
    pub name: String,
    pub arguments: String,
}

impl View for SessionToolCall {
    type V = ToolCallView;

    open spec fn view(&self) -> ToolCallView {
        ToolCallView { id: self.id@, name: self.name@, arguments: self.arguments@ }
    }
}

/// Views of a sequence of saved tool calls.
pub open spec fn saved_calls_view(v: Seq<SessionToolCall>) -> Seq<ToolCallView> {
    v.map_values(|t: SessionToolCall| t@)
}

/// A saved message of a conversation.
pub struct SessionConversationMessage {
    pub role: String,
    pub content: Option<String>,
    pub tool_call_id: Option<String>,
    pub tool_calls: Option<Vec<SessionToolCall>>,
}

/// The plain content of a saved message.
pub struct SavedMessageView {
    pub role: Seq<char>,
    pub content: Option<Seq<char>>,
    pub tool_call_id: Option<Seq<char>>,
    pub tool_calls: Option<Seq<ToolCallView>>,
}

/// The view of an optional string.
pub open spec fn opt_view(s: Option<String>) -> Option<Seq<char>> {
    match s {
        Some(t) => Some(t@),
        None => None,
    }
}

impl View for SessionConversationMessage {
    type V = SavedMessageView;

    open spec fn view(&self) -> SavedMessageView {
        SavedMessageView {
            role: self.role@,
            content: opt_view(self.content),
            tool_call_id: opt_view(self.tool_call_id),
            tool_calls: match self.tool_calls {
                Some(v) => Some(saved_calls_view(v@)),
                None => None,
            },
        }
    }
}

/// Views of a sequence of saved messages.
pub open spec fn saved_messages_view(v: Seq<SessionConversationMessage>) -> Seq<SavedMessageView> {
    v.map_values(|m: SessionConversationMessage| m@)
}

/// The saved state of a tab's router.
pub struct SessionRouter {
    pub unified_history: Vec<String>,
    pub command_history: Vec<String>,
    pub auto_execute: bool,
    pub conversation: Vec<SessionConversationMessage>,
}

/// A saved tab.
pub struct SessionTab {
    pub cwd: String,
    pub title: String,
    pub scrollback: String,
    pub scroll_offset: u64,
    pub child_exited: bool,
    pub router: SessionRouter,
    /// `"ssh"` for a tab of a remote host, empty otherwise.
    pub kind: String,
    pub ssh_host: String,
    pub ssh_port: u16,
    pub ssh_user: String,
}

/// A saved panel.
pub struct SessionPanel {
    pub id: u32,
    pub active_tab: usize,
    pub tabs: Vec<SessionTab>,
}

/// A saved tree of panels. The ratio of a split is in ten-thousandths.
pub enum SessionNode {
    Leaf { panel: SessionPanel },
    Split { direction: String, ratio: u16, left: Box<SessionNode>, right: Box<SessionNode> },
}

/// A saved workspace.
pub struct SessionWorkspace {
    pub name: String,
    pub tree: SessionNode,
    pub focused_panel_id: u32,
    pub next_panel_id: u32,
    pub ssh_host: String,
    pub ssh_port: u16,
    pub ssh_user: String,
    pub ssh_password: String,
}

/// A saved session. The fields after `workspaces` are those of the first
/// version of the format, which held a single tree.
pub struct SessionState {
    pub version: u32,
    pub font_size: i32,
    pub window_width: i32,
    pub window_height: i32,
    pub window_x: i32,
    pub window_y: i32,
    pub active_workspace: usize,
    pub sidebar_visible: bool,
    pub sidebar_width_px: i32,
    pub workspaces: Vec<SessionWorkspace>,
    pub focused_panel_id: Option<u32>,
    pub next_panel_id: Option<u32>,
    pub tree: Option<SessionNode>,
    pub ssh_host: String,
    pub ssh_port: u16,
    pub ssh_user: String,
    pub ssh_password: String,
}

/// Whether the sidebar shows when a session does not say.
pub fn default_true() -> (r: bool)
    ensures
        r,
{
    true
}

/// The sidebar's width when a session does not say.
pub fn default_sidebar_width() -> (r: i32)
    ensures
        r == crate::workspace::SIDEBAR_DEFAULT_WIDTH,
{
    crate::workspace::SIDEBAR_DEFAULT_WIDTH
}

// ---------------------------------------------------------------------------
// Where sessions are kept.
// ---------------------------------------------------------------------------

/// `name` appended to the path `base`, as `Path::join` does on Unix: an
/// absolute `name` replaces `base`; otherwise a `'/'` separates them unless
/// `base` is empty or already ends with one.
pub open spec fn join_path(base: Seq<char>, name: Seq<char>) -> Seq<char> {
    if name.len() > 0 && name[0] == '/' {
        name
    } else if base.len() == 0 || base.last() == '/' {
        base + name
    } else {
        base + "/"@ + name
    }
}

/// [`join_path`].
pub fn join_path_text(base: &str, name: &str) -> (r: String)
    ensures
        r@ == join_path(base@, name@),
{
    let b = crate::text::chars_of(base);
    let n = crate::text::chars_of(name);
    let mut r = String::new();
    if n.len() > 0 && n[0] == '/' {
        r.push_str(name);
    } else if b.len() == 0 || b[b.len() - 1] == '/' {
        r.push_str(base);
        r.push_str(name);
    } else {
        r.push_str(base);
        r.push_str("/");
        r.push_str(name);
    }
    r
}

/// `dirs::config_dir`, read as text with `to_string_lossy`: the user's
/// configuration directory. Nothing is claimed of it: it comes from the
/// environment.
#[verifier::external_body]
pub(crate) fn config_dir_text() -> (r: Option<String>) {
    match dirs::config_dir() {
        Some(d) => Some(d.to_string_lossy().into_owned()),
        None => None,
    }
}

/// The directory of this program's state under a configuration directory.
pub open spec fn state_dir(config_dir: Seq<char>) -> Seq<char> {
    join_path(config_dir, "tai"@)
}

/// The directory of this program's state under the configuration directory
/// `config_dir`, when there is one.
pub fn session_dir_in(config_dir: Option<String>) -> (r: Option<String>)
    ensures
        opt_view(r) == match opt_view(config_dir) {
            Some(c) => Some(state_dir(c)),
            None => None,
        },
{
    match config_dir {
        Some(c) => Some(join_path_text(c.as_str(), "tai")),
        None => None,
    }
}

/// The directory of this program's state, when the environment names a
/// configuration directory (see [`session_dir_in`]).
pub fn session_dir() -> (r: Option<String>)
    ensures
        r matches Some(d) ==> exists|c: Seq<char>| d@ == #[trigger] state_dir(c),
{
    session_dir_in(config_dir_text())
}

/// The entry `name` of this program's state directory under the
/// configuration directory `config_dir`, when there is one.
pub fn state_path_in(config_dir: Option<String>, name: &str) -> (r: Option<String>)
    ensures
        opt_view(r) == match opt_view(config_dir) {
            Some(c) => Some(join_path(state_dir(c), name@)),
            None => None,
        },
{
    match session_dir_in(config_dir) {
        Some(d) => Some(join_path_text(d.as_str(), name)),
        None => None,
    }
}

/// The file of the current session (see [`state_path_in`]).
pub fn session_path() -> (r: Option<String>)
    ensures
        r matches Some(p) ==> exists|c: Seq<char>|
            p@ == join_path(#[trigger] state_dir(c), "session.json"@),
{
    state_path_in(config_dir_text(), "session.json")
}

/// The file a session is written to before it replaces the current one
/// (see [`state_path_in`]).
pub fn session_tmp_path() -> (r: Option<String>)
    ensures
        r matches Some(p) ==> exists|c: Seq<char>|
            p@ == join_path(#[trigger] state_dir(c), "session.json.tmp"@),
{
    state_path_in(config_dir_text(), "session.json.tmp")
}

/// The directory of named sessions (see [`state_path_in`]).
pub fn sessions_dir() -> (r: Option<String>)
    ensures
        r matches Some(p) ==> exists|c: Seq<char>|
            p@ == join_path(#[trigger] state_dir(c), "sessions"@),
{
    state_path_in(config_dir_text(), "sessions")
}

/// A session read from a file is used only in the current version.
pub fn accept_version(state: SessionState) -> (r: Option<SessionState>)
    ensures
        state.version == SESSION_VERSION ==> r == Some(state),
        state.version != SESSION_VERSION ==> r is None,
{
    if state.version != SESSION_VERSION {
        None
    } else {
        Some(state)
    }
}

// ---------------------------------------------------------------------------
// Messages.
// ---------------------------------------------------------------------------

/// How a message is saved: the system message is not; the others keep
/// their role, text, tool-call id and tool calls.
pub open spec fn saved_message(m: MessageView) -> Option<SavedMessageView> {
    match m {
        MessageView::System { .. } => None,
        MessageView::User { content } => Some(
            SavedMessageView {
                role: "user"@,
                content: Some(content),
                tool_call_id: None,
                tool_calls: None,
            },
        ),
        MessageView::Assistant { content, tool_calls } => Some(
            SavedMessageView { role: "assistant"@, content, tool_call_id: None, tool_calls },
        ),
        MessageView::Tool { tool_call_id, content } => Some(
            SavedMessageView {
                role: "tool"@,
                content: Some(content),
                tool_call_id: Some(tool_call_id),
                tool_calls: None,
            },
        ),
    }
}

/// How a saved message is restored: by its role, `"user"` and `"tool"`
/// needing their text and `"tool"` its tool-call id; another role is
/// dropped.
pub open spec fn restored_message(m: SavedMessageView) -> Option<MessageView> {
    if m.role == "user"@ {
        match m.content {
            Some(c) => Some(MessageView::User { content: c }),
            None => None,
        }
    } else if m.role == "assistant"@ {
        Some(MessageView::Assistant { content: m.content, tool_calls: m.tool_calls })
    } else if m.role == "tool"@ {
        match (m.content, m.tool_call_id) {
            (Some(c), Some(id)) => Some(MessageView::Tool { tool_call_id: id, content: c }),
            _ => None,
        }
    } else {
        None
    }
}

/// The saved form of a sequence of messages.
pub open spec fn saved_messages(ms: Seq<MessageView>) -> Seq<SavedMessageView>
    decreases ms.len(),
{
    if ms.len() == 0 {
        Seq::empty()
    } else {
        let rest = saved_messages(ms.drop_last());
        match saved_message(ms.last()) {
            Some(s) => rest.push(s),
            None => rest,
        }
    }
}

/// The restored form of a sequence of saved messages.
pub open spec fn restored_messages(ms: Seq<SavedMessageView>) -> Seq<MessageView>
    decreases ms.len(),
{
    if ms.len() == 0 {
        Seq::empty()
    } else {
        let rest = restored_messages(ms.drop_last());
        match restored_message(ms.last()) {
            Some(m) => rest.push(m),
            None => rest,
        }
    }
}

/// The messages other than system messages, in order.
pub open spec fn without_system(ms: Seq<MessageView>) -> Seq<MessageView>
    decreases ms.len(),
{
    if ms.len() == 0 {
        Seq::empty()
    } else {
        let rest = without_system(ms.drop_last());
        match ms.last() {
            MessageView::System { .. } => rest,
            m => rest.push(m),
        }
    }
}

fn saved_calls(v: &Vec<ToolCall>) -> (r: Vec<SessionToolCall>)
    ensures
        saved_calls_view(r@) == tool_calls_view(v@),
{
    let mut r: Vec<SessionToolCall> = Vec::new();
    let mut i: usize = 0;
    while i < v.len()
        invariant
            i <= v@.len(),
            saved_calls_view(r@) == tool_calls_view(v@.subrange(0, i as int)),
        decreases v@.len() - i,
    {
        let t = &v[i];
        let s = SessionToolCall {
            id: t.id.clone(),
            name: t.name.clone(),
            arguments: t.arguments.clone(),
        };
        let ghost before = r@;
        r.push(s);
        assert(saved_calls_view(r@) =~= saved_calls_view(before).push(v@[i as int]@));
        assert(tool_calls_view(v@.subrange(0, i as int + 1)) =~= tool_calls_view(
            v@.subrange(0, i as int),
        ).push(v@[i as int]@));
        i += 1;
    }
    assert(v@.subrange(0, v@.len() as int) == v@);
    r
}

fn api_calls(v: &Vec<SessionToolCall>) -> (r: Vec<ToolCall>)
    ensures
        tool_calls_view(r@) == saved_calls_view(v@),
{
    let mut r: Vec<ToolCall> = Vec::new();
    let mut i: usize = 0;
    while i < v.len()
        invariant
            i <= v@.len(),
            tool_calls_view(r@) == saved_calls_view(v@.subrange(0, i as int)),
        decreases v@.len() - i,
    {
        let t = &v[i];
        let s = ToolCall { id: t.id.clone(), name: t.name.clone(), arguments: t.arguments.clone() };
        let ghost before = r@;
        r.push(s);
        assert(tool_calls_view(r@) =~= tool_calls_view(before).push(v@[i as int]@));
        assert(saved_calls_view(v@.subrange(0, i as int + 1)) =~= saved_calls_view(
            v@.subrange(0, i as int),
        ).push(v@[i as int]@));
        i += 1;
    }
    assert(v@.subrange(0, v@.len() as int) == v@);
    r
}

fn clone_opt(s: &Option<String>) -> (r: Option<String>)
    ensures
        opt_view(r) == opt_view(*s),
{
    match s {
        Some(t) => Some(t.clone()),
        None => None,
    }
}

/// The saved form of a message, as [`saved_message`].
pub fn msg_to_session(msg: &ChatMessage) -> (r: Option<SessionConversationMessage>)
    ensures
        match r {
            Some(s) => saved_message(msg@) == Some(s@),
            None => saved_message(msg@) is None,
        },
{
    match msg {
        ChatMessage::System { .. } => None,
        ChatMessage::User { content } => Some(
            SessionConversationMessage {
                role: "user".to_owned(),
                content: Some(content.clone()),
                tool_call_id: None,
                tool_calls: None,
            },
        ),
        ChatMessage::Assistant { content, tool_calls } => {
            let calls = match tool_calls {
                Some(v) => Some(saved_calls(v)),
                None => None,
            };
            Some(
                SessionConversationMessage {
                    role: "assistant".to_owned(),
                    content: clone_opt(content),
                    tool_call_id: None,
                    tool_calls: calls,
                },
            )
        },
        ChatMessage::Tool { tool_call_id, content } => Some(
            SessionConversationMessage {
                role: "tool".to_owned(),
                content: Some(content.clone()),
                tool_call_id: Some(tool_call_id.clone()),
                tool_calls: None,
            },
        ),
    }
}

/// The restored form of a saved message, as [`restored_message`].
pub fn session_msg_to_api(msg: &SessionConversationMessage) -> (r: Option<ChatMessage>)
    ensures
        match r {
            Some(m) => restored_message(msg@) == Some(m@),
            None => restored_message(msg@) is None,
        },
{
    if str_eq(msg.role.as_str(), "user") {
        match &msg.content {
            Some(c) => Some(ChatMessage::User { content: c.clone() }),
            None => None,
        }
    } else if str_eq(msg.role.as_str(), "assistant") {
        let calls = match &msg.tool_calls {
            Some(v) => Some(api_calls(v)),
            None => None,
        };
        Some(ChatMessage::Assistant { content: clone_opt(&msg.content), tool_calls: calls })
    } else if str_eq(msg.role.as_str(), "tool") {
        match (&msg.content, &msg.tool_call_id) {
            (Some(c), Some(id)) => Some(
                ChatMessage::Tool { tool_call_id: id.clone(), content: c.clone() },
            ),
            _ => None,
        }
    } else {
        None
    }
}

/// The saved form of a conversation, as [`saved_messages`].
pub fn messages_to_session(msgs: &VecDeque<ChatMessage>) -> (r: Vec<SessionConversationMessage>)
    ensures
        saved_messages_view(r@) == saved_messages(crate::ai::conversation::messages_view(msgs@)),
{
    let ghost mv = crate::ai::conversation::messages_view(msgs@);
    let mut r: Vec<SessionConversationMessage> = Vec::new();
    let mut i: usize = 0;
    while i < msgs.len()
        invariant
            i <= msgs@.len(),
            mv == crate::ai::conversation::messages_view(msgs@),
            saved_messages_view(r@) == saved_messages(mv.subrange(0, i as int)),
        decreases msgs@.len() - i,
    {
        let ghost p = mv.subrange(0, i as int + 1);
        assert(p.drop_last() =~= mv.subrange(0, i as int));
        assert(p.last() == msgs@[i as int]@);
        match msg_to_session(&msgs[i]) {
            Some(s) => {
                let ghost before = r@;
                r.push(s);
                assert(saved_messages_view(r@) =~= saved_messages_view(before).push(
                    r@[before.len() as int]@,
                ));
            },
            None => {},
        }
        i += 1;
    }
    assert(mv.subrange(0, mv.len() as int) == mv);
    r
}

/// The restored form of saved messages, as [`restored_messages`].
pub fn session_messages_to_api(msgs: &[SessionConversationMessage]) -> (r: Vec<ChatMessage>)
    ensures
        crate::ai::conversation::messages_view(r@) == restored_messages(saved_messages_view(msgs@)),
{
    let ghost sv = saved_messages_view(msgs@);
    let mut r: Vec<ChatMessage> = Vec::new();
    let mut i: usize = 0;
    while i < msgs.len()
        invariant
            i <= msgs@.len(),
            msgs@.len() == msgs.len(),
            sv == saved_messages_view(msgs@),
            crate::ai::conversation::messages_view(r@) == restored_messages(sv.subrange(0, i as int)),
        decreases msgs@.len() - i,
    {
        let ghost p = sv.subrange(0, i as int + 1);
        assert(p.drop_last() =~= sv.subrange(0, i as int));
        assert(p.last() == msgs@[i as int]@);
        match session_msg_to_api(&msgs[i]) {
            Some(m) => {
                let ghost before = r@;
                r.push(m);
                assert(crate::ai::conversation::messages_view(r@) =~= crate::ai::conversation::messages_view(
                    before,
                ).push(r@[before.len() as int]@));
            },
            None => {},
        }
        i += 1;
    }
    assert(sv.subrange(0, sv.len() as int) == sv);
    r
}

/// A message other than a system message comes back unchanged from being
/// saved and restored.
pub proof fn lemma_message_round_trip(m: MessageView)
    requires
        !(m is System),
    ensures
        saved_message(m) matches Some(s) && restored_message(s) == Some(m),
{
    reveal_strlit("user");
    reveal_strlit("assistant");
    reveal_strlit("tool");
    assert("user"@.len() != "assistant"@.len());
    assert("tool"@.len() != "assistant"@.len());
    assert("tool"@[0] != "user"@[0]);
    assert("tool"@ != "user"@);
    assert("assistant"@ != "user"@);
    assert("tool"@ != "assistant"@);
}

/// A conversation saved and restored is the conversation without its
/// system messages.
pub proof fn lemma_conversation_round_trip(ms: Seq<MessageView>)
    ensures
        restored_messages(saved_messages(ms)) == without_system(ms),
    decreases ms.len(),
{
    if ms.len() > 0 {
        lemma_conversation_round_trip(ms.drop_last());
        let m = ms.last();
        let rest = saved_messages(ms.drop_last());
        match saved_message(m) {
            Some(s) => {
                lemma_message_round_trip(m);
                assert(rest.push(s).drop_last() =~= rest);
            },
            None => {},
        }
    }
}


// ---------------------------------------------------------------------------
// Views and copies of saved tabs and panels.
// ---------------------------------------------------------------------------

/// The plain content of a saved router.
pub struct SavedRouterView {
    pub unified_history: Seq<Seq<char>>,
    pub command_history: Seq<Seq<char>>,
    pub auto_execute: bool,
    pub conversation: Seq<SavedMessageView>,
}

impl View for SessionRouter {
    type V = SavedRouterView;

    open spec fn view(&self) -> SavedRouterView {
        SavedRouterView {
            unified_history: strings_view(self.unified_history@),
            command_history: strings_view(self.command_history@),
            auto_execute: self.auto_execute,
            conversation: saved_messages_view(self.conversation@),
        }
    }
}

/// The plain content of a saved tab.
pub struct SavedTabView {
    pub cwd: Seq<char>,
    pub title: Seq<char>,
    pub scrollback: Seq<char>,
    pub scroll_offset: u64,
    pub child_exited: bool,
    pub router: SavedRouterView,
    pub kind: Seq<char>,
    pub ssh_host: Seq<char>,
    pub ssh_port: u16,
    pub ssh_user: Seq<char>,
}

impl View for SessionTab {
    type V = SavedTabView;

    open spec fn view(&self) -> SavedTabView {
        SavedTabView {
            cwd: self.cwd@,
            title: self.title@,
            scrollback: self.scrollback@,
            scroll_offset: self.scroll_offset,
            child_exited: self.child_exited,
            router: self.router@,
            kind: self.kind@,
            ssh_host: self.ssh_host@,
            ssh_port: self.ssh_port,
            ssh_user: self.ssh_user@,
        }
    }
}

/// Views of a sequence of saved tabs.
pub open spec fn saved_tabs_view(v: Seq<SessionTab>) -> Seq<SavedTabView> {
    v.map_values(|t: SessionTab| t@)
}

/// The plain content of a saved panel.
pub struct SavedPanelView {
    pub id: u32,
    pub active_tab: usize,
    pub tabs: Seq<SavedTabView>,
}

impl View for SessionPanel {
    type V = SavedPanelView;

    open spec fn view(&self) -> SavedPanelView {
        SavedPanelView { id: self.id, active_tab: self.active_tab, tabs: saved_tabs_view(self.tabs@) }
    }
}

/// Views of a sequence of saved panels.
pub open spec fn saved_panels_view(v: Seq<SessionPanel>) -> Seq<SavedPanelView> {
    v.map_values(|p: SessionPanel| p@)
}

/// The plain content of a saved tree.
pub enum SavedTreeView {
    Leaf { panel: SavedPanelView },
    Split { direction: Seq<char>, ratio: u16, left: Box<SavedTreeView>, right: Box<SavedTreeView> },
}

/// The view of a saved tree.
pub open spec fn tree_view(n: SessionNode) -> SavedTreeView
    decreases n,
{
    match n {
        SessionNode::Leaf { panel } => SavedTreeView::Leaf { panel: panel@ },
        SessionNode::Split { direction, ratio, left, right } => SavedTreeView::Split {
            direction: direction@,
            ratio,
            left: Box::new(tree_view(*left)),
            right: Box::new(tree_view(*right)),
        },
    }
}

fn copy_strings(v: &Vec<String>) -> (r: Vec<String>)
    ensures
        strings_view(r@) == strings_view(v@),
{
    let mut r: Vec<String> = Vec::new();
    let mut i: usize = 0;
    while i < v.len()
        invariant
            i <= v@.len(),
            strings_view(r@) == strings_view(v@.subrange(0, i as int)),
        decreases v@.len() - i,
    {
        let ghost before = r@;
        r.push(v[i].clone());
        assert(strings_view(r@) =~= strings_view(before).push(v@[i as int]@));
        assert(strings_view(v@.subrange(0, i as int + 1)) =~= strings_view(
            v@.subrange(0, i as int),
        ).push(v@[i as int]@));
        i += 1;
    }
    assert(v@.subrange(0, v@.len() as int) == v@);
    r
}

impl SessionToolCall {
    /// A copy.
    pub fn duplicate(&self) -> (r: Self)
        ensures
            r@ == self@,
    {
        SessionToolCall {
            id: self.id.clone(),
            name: self.name.clone(),
            arguments: self.arguments.clone(),
        }
    }
}

impl SessionConversationMessage {
    /// A copy.
    pub fn duplicate(&self) -> (r: Self)
        ensures
            r@ == self@,
    {
        let calls = match &self.tool_calls {
            Some(v) => {
                let mut r: Vec<SessionToolCall> = Vec::new();
                let mut i: usize = 0;
                while i < v.len()
                    invariant
                        i <= v@.len(),
                        saved_calls_view(r@) == saved_calls_view(v@.subrange(0, i as int)),
                    decreases v@.len() - i,
                {
                    let ghost before = r@;
                    r.push(v[i].duplicate());
                    assert(saved_calls_view(r@) =~= saved_calls_view(before).push(v@[i as int]@));
                    assert(saved_calls_view(v@.subrange(0, i as int + 1)) =~= saved_calls_view(
                        v@.subrange(0, i as int),
                    ).push(v@[i as int]@));
                    i += 1;
                }
                assert(v@.subrange(0, v@.len() as int) == v@);
                Some(r)
            },
            None => None,
        };
        SessionConversationMessage {
            role: self.role.clone(),
            content: clone_opt(&self.content),
            tool_call_id: clone_opt(&self.tool_call_id),
            tool_calls: calls,
        }
    }
}

impl SessionRouter {
    /// A copy.
    pub fn duplicate(&self) -> (r: Self)
        ensures
            r@ == self@,
    {
        let v = &self.conversation;
        let mut conv: Vec<SessionConversationMessage> = Vec::new();
        let mut i: usize = 0;
        while i < v.len()
            invariant
                i <= v@.len(),
                saved_messages_view(conv@) == saved_messages_view(v@.subrange(0, i as int)),
            decreases v@.len() - i,
        {
            let ghost before = conv@;
            conv.push(v[i].duplicate());
            assert(saved_messages_view(conv@) =~= saved_messages_view(before).push(v@[i as int]@));
            assert(saved_messages_view(v@.subrange(0, i as int + 1)) =~= saved_messages_view(
                v@.subrange(0, i as int),
            ).push(v@[i as int]@));
            i += 1;
        }
        assert(v@.subrange(0, v@.len() as int) == v@);
        SessionRouter {
            unified_history: copy_strings(&self.unified_history),
            command_history: copy_strings(&self.command_history),
            auto_execute: self.auto_execute,
            conversation: conv,
        }
    }
}

impl SessionTab {
    /// A copy.
    pub fn duplicate(&self) -> (r: Self)
        ensures
            r@ == self@,
    {
        SessionTab {
            cwd: self.cwd.clone(),
            title: self.title.clone(),
            scrollback: self.scrollback.clone(),
            scroll_offset: self.scroll_offset,
            child_exited: self.child_exited,
            router: self.router.duplicate(),
            kind: self.kind.clone(),
            ssh_host: self.ssh_host.clone(),
            ssh_port: self.ssh_port,
            ssh_user: self.ssh_user.clone(),
        }
    }
}

impl SessionPanel {
    /// A copy.
    pub fn duplicate(&self) -> (r: Self)
        ensures
            r@ == self@,
    {
        let v = &self.tabs;
        let mut tabs: Vec<SessionTab> = Vec::new();
        let mut i: usize = 0;
        while i < v.len()
            invariant
                i <= v@.len(),
                saved_tabs_view(tabs@) == saved_tabs_view(v@.subrange(0, i as int)),
            decreases v@.len() - i,
        {
            let ghost before = tabs@;
            tabs.push(v[i].duplicate());
            assert(saved_tabs_view(tabs@) =~= saved_tabs_view(before).push(v@[i as int]@));
            assert(saved_tabs_view(v@.subrange(0, i as int + 1)) =~= saved_tabs_view(
                v@.subrange(0, i as int),
            ).push(v@[i as int]@));
            i += 1;
        }
        assert(v@.subrange(0, v@.len() as int) == v@);
        SessionPanel { id: self.id, active_tab: self.active_tab, tabs }
    }
}

// ---------------------------------------------------------------------------
// Blank lines and the prompt at the end of the scrollback.
// ---------------------------------------------------------------------------

/// Index just past a control sequence whose parameters start at `j`: past
/// its final byte (`'@'` to `'~'`), or the end of the line.
pub open spec fn csi_final_end(s: Seq<u8>, j: int) -> int
    decreases s.len() - j,
{
    if j >= s.len() {
        s.len() as int
    } else if 0x40 <= s[j] && s[j] <= 0x7e {
        j + 1
    } else {
        csi_final_end(s, j + 1)
    }
}

pub proof fn lemma_csi_final_end(s: Seq<u8>, j: int)
    requires
        0 <= j <= s.len(),
    ensures
        j <= csi_final_end(s, j) <= s.len(),
    decreases s.len() - j,
{
    if j < s.len() {
        lemma_csi_final_end(s, j + 1);
    }
}

/// From byte `i` on, the line holds only spaces, tabs, carriage returns
/// and escape sequences.
pub open spec fn vt_blank_from(s: Seq<u8>, i: int) -> bool
    decreases s.len() - i,
{
    if i < 0 || i >= s.len() {
        true
    } else if s[i] == 0x1b {
        if i + 1 < s.len() && s[i + 1] == 0x5b {
            proof {
                lemma_csi_final_end(s, i + 2);
            }
            vt_blank_from(s, csi_final_end(s, i + 2))
        } else if i + 1 < s.len() {
            vt_blank_from(s, i + 2)
        } else {
            true
        }
    } else if s[i] == 0x20 || s[i] == 0x09 || s[i] == 0x0d {
        vt_blank_from(s, i + 1)
    } else {
        false
    }
}

/// Whether a line of terminal output shows nothing: it holds only spaces,
/// tabs, carriage returns and escape sequences.
pub fn is_vt_blank_line(line: &[u8]) -> (r: bool)
    ensures
        r == vt_blank_from(line@, 0),
{
    let mut i: usize = 0;
    while i < line.len()
        invariant
            i <= line@.len(),
            line@.len() == line.len(),
            vt_blank_from(line@, i as int) == vt_blank_from(line@, 0),
        decreases line@.len() - i,
    {
        let b = line[i];
        if b == 0x1b {
            if i + 1 < line.len() && line[i + 1] == 0x5b {
                let mut j = i + 2;
                proof {
                    lemma_csi_final_end(line@, i as int + 2);
                }
                while j < line.len() && !(line[j] >= 0x40 && line[j] <= 0x7e)
                    invariant
                        i + 2 <= j <= line@.len(),
                        line@.len() == line.len(),
                        csi_final_end(line@, j as int) == csi_final_end(line@, i as int + 2),
                    decreases line@.len() - j,
                {
                    j += 1;
                }
                if j < line.len() {
                    j += 1;
                }
                i = j;
            } else if i + 1 < line.len() {
                i = i + 2;
            } else {
                i = i + 1;
            }
        } else if b == 0x20 || b == 0x09 || b == 0x0d {
            i += 1;
        } else {
            return false;
        }
    }
    true
}

/// A line is blank as [`is_vt_blank_line`] reads its UTF-8 bytes.
pub open spec fn is_blank_text(line: Seq<char>) -> bool {
    vt_blank_from(vstd::utf8::encode_utf8(line), 0)
}

fn is_blank_chars(line: &[char]) -> (r: bool)
    ensures
        r == is_blank_text(line@),
{
    let s = crate::text::string_of(line);
    is_vt_blank_line(s.as_str().as_bytes())
}

/// Number of leading characters whose UTF-8 bytes fit in `budget`.
pub open spec fn chars_within(s: Seq<char>, budget: int) -> nat
    decreases s.len(),
{
    if s.len() == 0 || crate::text::char_width(s[0]) > budget {
        0
    } else {
        1 + chars_within(s.drop_first(), budget - crate::text::char_width(s[0]))
    }
}

proof fn lemma_chars_within_bound(s: Seq<char>, budget: int)
    ensures
        chars_within(s, budget) <= s.len(),
    decreases s.len(),
{
    if s.len() > 0 && crate::text::char_width(s[0]) <= budget {
        lemma_chars_within_bound(s.drop_first(), budget - crate::text::char_width(s[0]));
    }
}

/// Indices of the newlines of `t`, in increasing order.
pub open spec fn newline_indices(t: Seq<char>) -> Seq<int>
    decreases t.len(),
{
    if t.len() == 0 {
        Seq::empty()
    } else {
        let r = newline_indices(t.drop_last());
        if t.last() == '\n' {
            r.push(t.len() - 1)
        } else {
            r
        }
    }
}

proof fn lemma_newline_indices(t: Seq<char>)
    ensures
        forall|i: int|
            0 <= i < newline_indices(t).len() ==> 0 <= #[trigger] newline_indices(t)[i] < t.len()
                && t[newline_indices(t)[i]] == '\n',
        forall|i: int, j: int|
            0 <= i < j < newline_indices(t).len() ==> #[trigger] newline_indices(t)[i]
                < #[trigger] newline_indices(t)[j],
    decreases t.len(),
{
    if t.len() > 0 {
        lemma_newline_indices(t.drop_last());
        let r = newline_indices(t.drop_last());
        assert forall|i: int| 0 <= i < r.len() implies t[r[i]] == '\n' by {
            assert(t.drop_last()[r[i]] == t[r[i]]);
        }
    }
}

fn newline_positions(t: &[char]) -> (r: Vec<usize>)
    ensures
        r@.len() == newline_indices(t@).len(),
        forall|i: int| 0 <= i < r@.len() ==> r@[i] as int == #[trigger] newline_indices(t@)[i],
{
    let mut r: Vec<usize> = Vec::new();
    let mut k: usize = 0;
    while k < t.len()
        invariant
            k <= t@.len(),
            t@.len() == t.len(),
            r@.len() == newline_indices(t@.subrange(0, k as int)).len(),
            forall|i: int|
                0 <= i < r@.len() ==> r@[i] as int == #[trigger] newline_indices(
                    t@.subrange(0, k as int),
                )[i],
        decreases t@.len() - k,
    {
        let ghost p = t@.subrange(0, k as int + 1);
        assert(p.drop_last() =~= t@.subrange(0, k as int));
        assert(p.last() == t@[k as int]);
        if t[k] == '\n' {
            r.push(k);
        }
        k += 1;
    }
    assert(t@.subrange(0, t@.len() as int) == t@);
    r
}

/// Searching the lines between newline `m` and newline `m + 1` of `t`,
/// then the ones before them, for the last blank line: the index where it
/// starts.
pub open spec fn last_blank_line_from(t: Seq<char>, nl: Seq<int>, m: int) -> Option<int>
    decreases m + 1,
{
    if m < 0 {
        None
    } else if is_blank_text(crate::text::strip_cr(t.subrange(nl[m] + 1, nl[m + 1]))) {
        Some(nl[m] + 1)
    } else {
        last_blank_line_from(t, nl, m - 1)
    }
}

/// Where the scrollback is cut to drop the prompt at its end: within its
/// last 4000 bytes, at the start of the last blank line that ends with a
/// newline, or at the start of those bytes when only their first line is
/// blank; `None` when no line there is blank.
pub open spec fn prompt_cut(s: Seq<char>) -> Option<int> {
    let k0 = chars_within(s, crate::text::sat64(crate::text::utf8_len(s)) - 4000) as int;
    let t = s.subrange(k0, s.len() as int);
    let nl = newline_indices(t);
    let found = if nl.len() >= 2 {
        last_blank_line_from(t, nl, nl.len() - 2)
    } else {
        None
    };
    match found {
        Some(p) => Some(k0 + p),
        None => if nl.len() > 0 && is_blank_text(crate::text::strip_cr(t.subrange(0, nl[0]))) {
            Some(k0)
        } else {
            None
        },
    }
}

/// The scrollback without the prompt at its end: cut as [`prompt_cut`]
/// says, or emptied when it finds no blank line.
pub open spec fn strip_trailing_prompt_spec(s: Seq<char>) -> Seq<char> {
    match prompt_cut(s) {
        Some(p) => s.subrange(0, p),
        None => Seq::empty(),
    }
}

fn strip_cr_slice(v: &[char], from: usize, to: usize) -> (r: Vec<char>)
    requires
        from <= to <= v@.len(),
    ensures
        r@ == crate::text::strip_cr(v@.subrange(from as int, to as int)),
{
    let p = crate::text::chars_range(v, from, to);
    crate::text::strip_cr_vec(p)
}

fn search_blank_line(t: &[char], nl: &Vec<usize>) -> (r: Option<usize>)
    requires
        nl@.len() >= 2,
        nl@.len() == newline_indices(t@).len(),
        forall|i: int| 0 <= i < nl@.len() ==> nl@[i] as int == #[trigger] newline_indices(t@)[i],
    ensures
        match r {
            Some(p) => last_blank_line_from(t@, newline_indices(t@), nl@.len() - 2) == Some(p as int),
            None => last_blank_line_from(t@, newline_indices(t@), nl@.len() - 2) is None,
        },
        r matches Some(p) ==> p <= t@.len(),
{
    proof {
        lemma_newline_indices(t@);
    }
    let ghost nls = newline_indices(t@);
    let mut m: usize = nl.len() - 1;
    while m > 0
        invariant
            nl@.len() >= 2,
            m <= nl@.len() - 1,
            nl@.len() == nls.len(),
            nls == newline_indices(t@),
            forall|i: int| 0 <= i < nl@.len() ==> nl@[i] as int == #[trigger] nls[i],
            forall|i: int| 0 <= i < nls.len() ==> 0 <= #[trigger] nls[i] < t@.len(),
            forall|i: int, j: int| 0 <= i < j < nls.len() ==> #[trigger] nls[i] < #[trigger] nls[j],
            t@.len() == t.len(),
            last_blank_line_from(t@, nls, nls.len() - 2) == last_blank_line_from(t@, nls, m - 1),
        decreases m,
    {
        let a = nl[m - 1];
        let b = nl[m];
        assert(nls[m - 1] < nls[m as int]);
        let line = strip_cr_slice(t, a + 1, b);
        if is_blank_chars(&line) {
            return Some(a + 1);
        }
        m -= 1;
    }
    None
}

/// Drops the shell's prompt from the end of saved scrollback, as
/// [`strip_trailing_prompt_spec`].
pub fn strip_trailing_prompt(scrollback: &mut String)
    ensures
        final(scrollback)@ == strip_trailing_prompt_spec(old(scrollback)@),
{
    let v = crate::text::chars_of(scrollback.as_str());
    let n = crate::text::utf8_len_sat(scrollback.as_str());
    let target: u64 = n.saturating_sub(4000);
    let mut k0: usize = 0;
    let mut acc: u64 = 0;
    proof {
        lemma_chars_within_bound(v@, target as int);
        assert(v@.subrange(0, v@.len() as int) == v@);
    }
    while k0 < v.len() && crate::text::char_utf8_width(v[k0]) <= target - acc
        invariant
            k0 <= v@.len(),
            v@.len() == v.len(),
            acc <= target,
            chars_within(v@, target as int) == k0 + chars_within(
                v@.subrange(k0 as int, v@.len() as int),
                target - acc,
            ),
        decreases v@.len() - k0,
    {
        let ghost rest = v@.subrange(k0 as int, v@.len() as int);
        assert(rest.drop_first() =~= v@.subrange(k0 as int + 1, v@.len() as int));
        assert(rest[0] == v@[k0 as int]);
        acc = acc + crate::text::char_utf8_width(v[k0]);
        k0 += 1;
    }
    proof {
        let rest = v@.subrange(k0 as int, v@.len() as int);
        if k0 < v@.len() {
            assert(rest[0] == v@[k0 as int]);
        }
        assert(n == crate::text::sat64(crate::text::utf8_len(v@)));
        assert(target as int == (if n >= 4000 { n - 4000 } else { 0 }));
        // A budget below zero and a budget of zero both fit no character.
        assert(chars_within(v@, target as int) == chars_within(v@, n - 4000)) by {
            if n < 4000 {
                if v@.len() > 0 {
                    assert(crate::text::char_width(v@[0]) >= 1);
                }
            }
        }
    }
    let t = crate::text::chars_range(&v, k0, v.len());
    let nl = newline_positions(&t);
    proof {
        lemma_newline_indices(t@);
    }
    let found: Option<usize> = if nl.len() >= 2 {
        search_blank_line(&t, &nl)
    } else {
        None
    };
    let cut: Option<usize> = match found {
        Some(p) => Some(k0 + p),
        None => {
            if nl.len() > 0 {
                assert(nl@[0] as int == newline_indices(t@)[0]);
                let first = strip_cr_slice(&t, 0, nl[0]);
                if is_blank_chars(&first) {
                    Some(k0)
                } else {
                    None
                }
            } else {
                None
            }
        },
    };
    match cut {
        Some(p) => {
            *scrollback = crate::text::string_of(&crate::text::chars_range(&v, 0, p));
        },
        None => {
            scrollback.clear();
        },
    }
}



// ---------------------------------------------------------------------------
// Saving tabs, trees and the session.
// ---------------------------------------------------------------------------

/// The scrollback limited to its last [`MAX_SCROLLBACK_LINES`] lines: with
/// more lines than that, everything up to the newline that ends the first
/// line too many is dropped.
pub open spec fn limit_lines(s: Seq<char>) -> Seq<char> {
    let count = crate::text::lines_spec(s).len();
    let nl = newline_indices(s);
    if count > MAX_SCROLLBACK_LINES && count - MAX_SCROLLBACK_LINES - 1 < nl.len() {
        s.subrange(nl[count - MAX_SCROLLBACK_LINES - 1] + 1, s.len() as int)
    } else {
        s
    }
}

fn limit_scrollback_lines(s: String) -> (r: String)
    ensures
        r@ == limit_lines(s@),
{
    let lines = crate::text::lines_of(s.as_str());
    let count = lines.len();
    if count > MAX_SCROLLBACK_LINES {
        let v = crate::text::chars_of(s.as_str());
        let nl = newline_positions(&v);
        proof {
            lemma_newline_indices(v@);
        }
        let skip = count - MAX_SCROLLBACK_LINES;
        if skip - 1 < nl.len() {
            assert(nl@[skip - 1] as int == newline_indices(v@)[skip - 1]);
            assert(v@.len() == v.len());
            let pos = nl[skip - 1] + 1;
            return crate::text::string_of(&crate::text::chars_range(&v, pos, v.len()));
        }
    }
    s
}

/// What the terminal and its shell said of a tab when it is saved.
pub struct TabSnapshot {
    /// The shell's working directory, when it could be read.
    pub cwd: Option<String>,
    /// The title the shell last set.
    pub title: String,
    /// The scrollback the tab was restored with, if it was.
    pub restored_scrollback: Option<String>,
    /// The terminal's contents with their escape sequences.
    pub buffer_vt: String,
    pub scroll_offset: u64,
    pub child_exited: bool,
    pub ssh_info: Option<crate::terminal::ssh::SshTabInfo>,
}

/// The scrollback that is saved: the one the tab was restored with, else
/// the terminal's contents, without the prompt at the end while the shell
/// lives, limited to [`MAX_SCROLLBACK_LINES`] lines.
pub open spec fn saved_scrollback(
    restored: Option<Seq<char>>,
    buffer_vt: Seq<char>,
    child_exited: bool,
) -> Seq<char> {
    limit_lines(
        match restored {
            Some(o) => o,
            None => if child_exited {
                buffer_vt
            } else {
                strip_trailing_prompt_spec(buffer_vt)
            },
        },
    )
}

/// The saved form of a tab: its working directory unless its shell has
/// exited, its title and scrollback, and its router's histories and
/// conversation; a tab of a remote host is marked `"ssh"` with the host.
pub fn tab_to_session(snap: TabSnapshot, router: &crate::router::InputRouter) -> (r: SessionTab)
    ensures
        r.cwd@ == (if snap.child_exited {
            Seq::<char>::empty()
        } else {
            match opt_view(snap.cwd) {
                Some(c) => c,
                None => Seq::<char>::empty(),
            }
        }),
        r.title == snap.title,
        r.scrollback@ == saved_scrollback(
            opt_view(snap.restored_scrollback),
            snap.buffer_vt@,
            snap.child_exited,
        ),
        r.scroll_offset == snap.scroll_offset,
        r.child_exited == snap.child_exited,
        r.router@ == (SavedRouterView {
            unified_history: router@.history,
            command_history: router@.commands,
            auto_execute: router@.auto_execute,
            conversation: saved_messages(router@.conversation),
        }),
        match snap.ssh_info {
            Some(i) => r.kind@ == "ssh"@ && r.ssh_host@ == i.host@ && r.ssh_port == i.port
                && r.ssh_user@ == i.user@,
            None => r.kind@ == Seq::<char>::empty() && r.ssh_host@ == Seq::<char>::empty()
                && r.ssh_port == 0 && r.ssh_user@ == Seq::<char>::empty(),
        },
{
    let cwd = if snap.child_exited {
        String::new()
    } else {
        match snap.cwd {
            Some(c) => c,
            None => String::new(),
        }
    };
    let from_restored = snap.restored_scrollback.is_some();
    let mut scrollback = match snap.restored_scrollback {
        Some(o) => o,
        None => snap.buffer_vt,
    };
    if !snap.child_exited && !from_restored {
        strip_trailing_prompt(&mut scrollback);
    }
    let scrollback = limit_scrollback_lines(scrollback);
    let conversation = messages_to_session(router.conversation_messages());
    let (kind, ssh_host, ssh_port, ssh_user) = match &snap.ssh_info {
        Some(info) => ("ssh".to_owned(), info.host.clone(), info.port, info.user.clone()),
        None => (String::new(), String::new(), 0u16, String::new()),
    };
    SessionTab {
        cwd,
        title: snap.title,
        scrollback,
        scroll_offset: snap.scroll_offset,
        child_exited: snap.child_exited,
        router: SessionRouter {
            unified_history: copy_strings(router.unified_history()),
            command_history: copy_strings(router.command_history()),
            auto_execute: router.auto_execute(),
            conversation,
        },
        kind,
        ssh_host,
        ssh_port,
        ssh_user,
    }
}

/// How a direction is written in a session.
pub open spec fn direction_name(d: crate::split::SplitDirection) -> Seq<char> {
    match d {
        crate::split::SplitDirection::Horizontal => "horizontal"@,
        crate::split::SplitDirection::Vertical => "vertical"@,
    }
}

/// Views of the tabs of each panel.
pub open spec fn panel_tabs_view(q: Seq<Vec<SessionTab>>) -> Seq<Seq<SavedTabView>> {
    q.map_values(|v: Vec<SessionTab>| saved_tabs_view(v@))
}

/// The saved form of a tree whose panels, left to right, have the tabs
/// `tabs`.
pub open spec fn saved_tree<T>(n: crate::split::SplitNode<T>, tabs: Seq<Seq<SavedTabView>>) -> SavedTreeView
    decreases n,
{
    match n {
        crate::split::SplitNode::Leaf(p) => SavedTreeView::Leaf {
            panel: SavedPanelView { id: p.id, active_tab: p.active_tab, tabs: tabs[0] },
        },
        crate::split::SplitNode::Split { direction, ratio, left, right } => SavedTreeView::Split {
            direction: direction_name(direction),
            ratio,
            left: Box::new(saved_tree(*left, tabs)),
            right: Box::new(saved_tree(*right, tabs.skip(crate::split::leaves(*left).len() as int))),
        },
    }
}

proof fn lemma_leaves_nonempty<T>(n: crate::split::SplitNode<T>)
    ensures
        crate::split::leaves(n).len() >= 1,
    decreases n,
{
    match n {
        crate::split::SplitNode::Leaf(_) => {},
        crate::split::SplitNode::Split { left, right, .. } => {
            lemma_leaves_nonempty(*left);
        },
    }
}

/// The saved form of a tree, taking each panel's tabs in left-to-right
/// order from the front of `tabs`.
pub fn split_node_to_session<T>(
    node: &crate::split::SplitNode<T>,
    tabs: &mut VecDeque<Vec<SessionTab>>,
) -> (r: SessionNode)
    requires
        old(tabs)@.len() >= crate::split::leaves(*node).len(),
    ensures
        tree_view(r) == saved_tree(*node, panel_tabs_view(old(tabs)@)),
        final(tabs)@ == old(tabs)@.skip(crate::split::leaves(*node).len() as int),
    decreases *node,
{
    match node {
        crate::split::SplitNode::Leaf(panel) => {
            let ghost q = tabs@;
            let t = match tabs.pop_front() {
                Some(t) => t,
                None => Vec::new(),
            };
            assert(tabs@ =~= q.skip(1));
            SessionNode::Leaf {
                panel: SessionPanel { id: panel.id, active_tab: panel.active_tab, tabs: t },
            }
        },
        crate::split::SplitNode::Split { direction, ratio, left, right } => {
            let ghost q = tabs@;
            let name = match direction {
                crate::split::SplitDirection::Horizontal => "horizontal".to_owned(),
                crate::split::SplitDirection::Vertical => "vertical".to_owned(),
            };
            let l = split_node_to_session(left, tabs);
            let r = split_node_to_session(right, tabs);
            let ghost nl = crate::split::leaves(**left).len() as int;
            let ghost nr = crate::split::leaves(**right).len() as int;
            assert(tabs@ =~= q.skip(nl + nr));
            assert(panel_tabs_view(q).skip(nl) =~= panel_tabs_view(q.skip(nl)));
            SessionNode::Split { direction: name, ratio: *ratio, left: Box::new(l), right: Box::new(r) }
        },
    }
}

/// The plain content of a saved workspace.
pub struct SavedWorkspaceView {
    pub name: Seq<char>,
    pub tree: SavedTreeView,
    pub focused_panel_id: u32,
    pub next_panel_id: u32,
    pub ssh_host: Seq<char>,
    pub ssh_port: u16,
    pub ssh_user: Seq<char>,
    pub ssh_password: Seq<char>,
}

/// The view of a saved workspace.
pub open spec fn workspace_view(w: SessionWorkspace) -> SavedWorkspaceView {
    SavedWorkspaceView {
        name: w.name@,
        tree: tree_view(w.tree),
        focused_panel_id: w.focused_panel_id,
        next_panel_id: w.next_panel_id,
        ssh_host: w.ssh_host@,
        ssh_port: w.ssh_port,
        ssh_user: w.ssh_user@,
        ssh_password: w.ssh_password@,
    }
}

/// The saved form of a workspace whose panels have the tabs `tabs`.
pub open spec fn saved_workspace<T>(
    ws: crate::workspace::Workspace<T>,
    tabs: Seq<Seq<SavedTabView>>,
) -> SavedWorkspaceView {
    SavedWorkspaceView {
        name: ws.name@,
        tree: saved_tree(ws.root, tabs),
        focused_panel_id: ws.focused_panel_id,
        next_panel_id: ws.next_panel_id,
        ssh_host: match ws.ssh_info {
            Some(i) => i.host@,
            None => Seq::empty(),
        },
        ssh_port: match ws.ssh_info {
            Some(i) => i.port,
            None => 0,
        },
        ssh_user: match ws.ssh_info {
            Some(i) => i.user@,
            None => Seq::empty(),
        },
        ssh_password: match ws.ssh_info {
            Some(_) => ws.ssh_password@,
            None => Seq::empty(),
        },
    }
}

/// The saved form of a workspace, taking its panels' tabs from `tabs`.
pub fn workspace_to_session<T>(
    ws: &crate::workspace::Workspace<T>,
    tabs: &mut VecDeque<Vec<SessionTab>>,
) -> (r: SessionWorkspace)
    requires
        old(tabs)@.len() >= crate::split::leaves(ws.root).len(),
    ensures
        workspace_view(r) == saved_workspace(*ws, panel_tabs_view(old(tabs)@)),
        final(tabs)@ == old(tabs)@.skip(crate::split::leaves(ws.root).len() as int),
{
    let (ssh_host, ssh_port, ssh_user, ssh_password) = match &ws.ssh_info {
        Some(info) => (info.host.clone(), info.port, info.user.clone(), ws.ssh_password.clone()),
        None => (String::new(), 0u16, String::new(), String::new()),
    };
    SessionWorkspace {
        name: ws.name.clone(),
        tree: split_node_to_session(&ws.root, tabs),
        focused_panel_id: ws.focused_panel_id,
        next_panel_id: ws.next_panel_id,
        ssh_host,
        ssh_port,
        ssh_user,
        ssh_password,
    }
}

/// The session to save: the current version, the window, the workspaces
/// with the tabs of their panels (`tabs[i]` holds those of workspace `i`,
/// left to right), and the sidebar; the fields of the first version are left
/// empty.
pub fn build_session_state<T>(
    wm: &crate::workspace::WorkspaceManager<T>,
    tabs: Vec<VecDeque<Vec<SessionTab>>>,
    font_size: i32,
    window_width: i32,
    window_height: i32,
    window_x: i32,
    window_y: i32,
) -> (r: SessionState)
    requires
        tabs@.len() == wm.workspaces@.len(),
        forall|i: int|
            0 <= i < tabs@.len() ==> (#[trigger] tabs@[i])@.len() >= crate::split::leaves(
                wm.workspaces@[i].root,
            ).len(),
    ensures
        r.version == SESSION_VERSION,
        r.font_size == font_size,
        r.window_width == window_width,
        r.window_height == window_height,
        r.window_x == window_x,
        r.window_y == window_y,
        r.active_workspace == wm.active,
        r.sidebar_visible == wm.sidebar_visible,
        r.sidebar_width_px == wm.sidebar_width_px,
        r.workspaces@.len() == wm.workspaces@.len(),
        forall|i: int|
            0 <= i < r.workspaces@.len() ==> workspace_view(#[trigger] r.workspaces@[i])
                == saved_workspace(wm.workspaces@[i], panel_tabs_view(tabs@[i]@)),
        r.focused_panel_id is None,
        r.next_panel_id is None,
        r.tree is None,
        r.ssh_host@ == Seq::<char>::empty(),
        r.ssh_port == 0,
        r.ssh_user@ == Seq::<char>::empty(),
        r.ssh_password@ == Seq::<char>::empty(),
{
    let mut tabs = tabs;
    let mut workspaces: Vec<SessionWorkspace> = Vec::new();
    let mut i: usize = 0;
    let ghost orig = tabs@;
    while i < wm.workspaces.len()
        invariant
            i <= wm.workspaces@.len(),
            tabs@.len() == wm.workspaces@.len(),
            orig.len() == tabs@.len(),
            forall|j: int| i <= j < tabs@.len() ==> #[trigger] tabs@[j] == orig[j],
            forall|j: int|
                0 <= j < orig.len() ==> (#[trigger] orig[j])@.len() >= crate::split::leaves(
                    wm.workspaces@[j].root,
                ).len(),
            workspaces@.len() == i,
            forall|j: int|
                0 <= j < i ==> workspace_view(#[trigger] workspaces@[j]) == saved_workspace(
                    wm.workspaces@[j],
                    panel_tabs_view(orig[j]@),
                ),
        decreases wm.workspaces@.len() - i,
    {
        let mut q: VecDeque<Vec<SessionTab>> = VecDeque::new();
        let ghost before = tabs@;
        std::mem::swap(&mut q, &mut tabs[i]);
        assert(q == orig[i as int]);
        let w = workspace_to_session(&wm.workspaces[i], &mut q);
        workspaces.push(w);
        i += 1;
    }
    SessionState {
        version: SESSION_VERSION,
        font_size,
        window_width,
        window_height,
        window_x,
        window_y,
        active_workspace: wm.active,
        sidebar_visible: wm.sidebar_visible,
        sidebar_width_px: wm.sidebar_width_px,
        workspaces,
        focused_panel_id: None,
        next_panel_id: None,
        tree: None,
        ssh_host: String::new(),
        ssh_port: 0,
        ssh_user: String::new(),
        ssh_password: String::new(),
    }
}



// ---------------------------------------------------------------------------
// Restoring.
// ---------------------------------------------------------------------------

/// The workspaces of a session; a session of the first version, with a
/// single tree, becomes one workspace named `"default"`.
pub open spec fn session_workspaces_spec(s: SessionState) -> Option<Seq<SavedWorkspaceView>> {
    if s.workspaces@.len() == 0 {
        match s.tree {
            Some(tree) => Some(
                seq![
                    SavedWorkspaceView {
                        name: "default"@,
                        tree: tree_view(tree),
                        focused_panel_id: match s.focused_panel_id {
                            Some(f) => f,
                            None => 0,
                        },
                        next_panel_id: match s.next_panel_id {
                            Some(n) => n,
                            None => 1,
                        },
                        ssh_host: s.ssh_host@,
                        ssh_port: s.ssh_port,
                        ssh_user: s.ssh_user@,
                        ssh_password: s.ssh_password@,
                    },
                ],
            ),
            None => None,
        }
    } else {
        Some(s.workspaces@.map_values(|w: SessionWorkspace| workspace_view(w)))
    }
}

/// The workspaces to restore, as [`session_workspaces_spec`]; an error when
/// the session holds none.
pub fn session_workspaces(state: SessionState) -> (r: Result<Vec<SessionWorkspace>, String>)
    ensures
        match (r, session_workspaces_spec(state)) {
            (Ok(v), Some(s)) => v@.map_values(|w: SessionWorkspace| workspace_view(w)) == s,
            (Err(e), None) => e@ == "No workspace data found"@,
            _ => false,
        },
{
    if state.workspaces.len() == 0 {
        match state.tree {
            Some(tree) => {
                let mut v: Vec<SessionWorkspace> = Vec::new();
                v.push(
                    SessionWorkspace {
                        name: "default".to_owned(),
                        tree,
                        focused_panel_id: match state.focused_panel_id {
                            Some(f) => f,
                            None => 0,
                        },
                        next_panel_id: match state.next_panel_id {
                            Some(n) => n,
                            None => 1,
                        },
                        ssh_host: state.ssh_host,
                        ssh_port: state.ssh_port,
                        ssh_user: state.ssh_user,
                        ssh_password: state.ssh_password,
                    },
                );
                assert(v@.map_values(|w: SessionWorkspace| workspace_view(w)) =~= session_workspaces_spec(
                    state,
                )->0);
                Ok(v)
            },
            None => Err("No workspace data found".to_owned()),
        }
    } else {
        Ok(state.workspaces)
    }
}

/// How a direction is read from a session: `"vertical"`, or else horizontal.
pub open spec fn direction_of(name: Seq<char>) -> crate::split::SplitDirection {
    if name == "vertical"@ {
        crate::split::SplitDirection::Vertical
    } else {
        crate::split::SplitDirection::Horizontal
    }
}

/// `n` has the shape of the saved tree `v`, with panels that have the saved
/// ids and nothing else yet: no tabs, not laid out, tab bars for cells of
/// height `ch`.
pub open spec fn is_skeleton_of<T>(n: crate::split::SplitNode<T>, v: SavedTreeView, ch: i32) -> bool
    decreases n,
{
    match n {
        crate::split::SplitNode::Leaf(p) => match v {
            SavedTreeView::Leaf { panel } => p.id == panel.id && p.tabs@.len() == 0 && p.active_tab
                == 0 && p.tab_bar.height == ch + 14 && p.rect == (crate::split::PanelRect {
                x: 0,
                y: 0,
                w: 0,
                h: 0,
            }),
            _ => false,
        },
        crate::split::SplitNode::Split { direction, ratio, left, right } => match v {
            SavedTreeView::Split { direction: d, ratio: r, left: l, right: rr } => direction
                == direction_of(d) && ratio == r && is_skeleton_of(*left, *l, ch) && is_skeleton_of(
                *right,
                *rr,
                ch,
            ),
            _ => false,
        },
    }
}

/// A tree of empty panels in the shape of a saved tree.
pub fn build_skeleton<T>(node: &SessionNode, ch: i32) -> (r: crate::split::SplitNode<T>)
    requires
        ch <= i32::MAX - 14,
    ensures
        is_skeleton_of(r, tree_view(*node), ch),
    decreases *node,
{
    match node {
        SessionNode::Leaf { panel: sp } => {
            let panel = crate::split::Panel {
                id: sp.id,
                tabs: Vec::new(),
                active_tab: 0,
                tab_bar: crate::tab_bar::TabBar::new(ch),
                rect: crate::split::PanelRect { x: 0, y: 0, w: 0, h: 0 },
            };
            crate::split::SplitNode::Leaf(panel)
        },
        SessionNode::Split { direction, ratio, left, right } => {
            let dir = if str_eq(direction.as_str(), "vertical") {
                crate::split::SplitDirection::Vertical
            } else {
                crate::split::SplitDirection::Horizontal
            };
            crate::split::SplitNode::Split {
                direction: dir,
                ratio: *ratio,
                left: Box::new(build_skeleton(left, ch)),
                right: Box::new(build_skeleton(right, ch)),
            }
        },
    }
}

/// The panels of a saved tree, left to right.
pub open spec fn saved_panels(v: SavedTreeView) -> Seq<SavedPanelView>
    decreases v,
{
    match v {
        SavedTreeView::Leaf { panel } => seq![panel],
        SavedTreeView::Split { left, right, .. } => saved_panels(*left) + saved_panels(*right),
    }
}

fn collect_panels_into(node: &SessionNode, out: &mut Vec<SessionPanel>)
    ensures
        saved_panels_view(final(out)@) == saved_panels_view(old(out)@) + saved_panels(tree_view(*node)),
    decreases *node,
{
    match node {
        SessionNode::Leaf { panel } => {
            let ghost before = out@;
            out.push(panel.duplicate());
            assert(saved_panels_view(out@) =~= saved_panels_view(before).push(panel@));
        },
        SessionNode::Split { left, right, .. } => {
            collect_panels_into(left, out);
            collect_panels_into(right, out);
            assert(saved_panels_view(final(out)@) =~= saved_panels_view(old(out)@) + saved_panels(
                tree_view(*node),
            ));
        },
    }
}

/// Copies of the panels of a saved tree, left to right.
pub fn collect_session_panels(node: &SessionNode) -> (r: Vec<SessionPanel>)
    ensures
        saved_panels_view(r@) == saved_panels(tree_view(*node)),
{
    let mut out: Vec<SessionPanel> = Vec::new();
    collect_panels_into(node, &mut out);
    assert(saved_panels_view(out@) =~= Seq::<SavedPanelView>::empty() + saved_panels(
        tree_view(*node),
    ));
    out
}

/// The first saved panel with the given id.
pub open spec fn first_panel_with(panels: Seq<SavedPanelView>, id: u32) -> Option<SavedPanelView>
    decreases panels.len(),
{
    if panels.len() == 0 {
        None
    } else if panels[0].id == id {
        Some(panels[0])
    } else {
        first_panel_with(panels.drop_first(), id)
    }
}

/// Copies of the tabs, and the active tab, of the first saved panel with
/// the given id; no tabs and the first one active when there is none.
pub fn saved_tabs_for(panels: &Vec<SessionPanel>, id: u32) -> (r: (Vec<SessionTab>, usize))
    ensures
        match first_panel_with(saved_panels_view(panels@), id) {
            Some(p) => saved_tabs_view(r.0@) == p.tabs && r.1 == p.active_tab,
            None => r.0@.len() == 0 && r.1 == 0,
        },
{
    let ghost pv = saved_panels_view(panels@);
    let mut i: usize = 0;
    assert(pv.skip(0) =~= pv);
    while i < panels.len()
        invariant
            i <= panels@.len(),
            pv == saved_panels_view(panels@),
            first_panel_with(pv, id) == first_panel_with(pv.skip(i as int), id),
        decreases panels@.len() - i,
    {
        assert(pv.skip(i as int).drop_first() =~= pv.skip(i as int + 1));
        assert(pv.skip(i as int)[0] == panels@[i as int]@);
        if panels[i].id == id {
            let p = panels[i].duplicate();
            return (p.tabs, p.active_tab);
        }
        i += 1;
    }
    (Vec::new(), 0)
}

/// The active tab of a restored panel: the saved one, at most the last tab.
pub open spec fn clamped_active(saved: usize, count: nat) -> usize {
    let last: int = if count > 0 {
        count - 1
    } else {
        0
    };
    if saved < last {
        saved
    } else {
        last as usize
    }
}

/// A restored panel shows the tab that was active when the session was
/// saved, when it is one of the restored tabs, and else its last tab: the
/// active tab is always one of the tabs, and never past the saved one.
pub proof fn lemma_clamped_active_keeps_saved(saved: usize, count: nat)
    requires
        count > 0,
    ensures
        saved < count ==> clamped_active(saved, count) == saved,
        saved >= count ==> clamped_active(saved, count) == count - 1,
        clamped_active(saved, count) < count,
        clamped_active(saved, count) <= saved,
{
}

/// Gives the leftmost panel with the given id its restored tabs, with the
/// saved active tab kept within them.
pub fn install_tabs<T>(
    root: &mut crate::split::SplitNode<T>,
    panel_id: u32,
    tabs: Vec<T>,
    saved_active: usize,
)
    ensures
        *final(root) == match crate::split::find_panel(*old(root), panel_id) {
            Some(p) => crate::split::replace_panel(
                *old(root),
                panel_id,
                crate::split::Panel {
                    tabs,
                    active_tab: clamped_active(saved_active, tabs@.len()),
                    ..p
                },
            ),
            None => *old(root),
        },
{
    let last = tabs.len().saturating_sub(1);
    let active = if saved_active < last {
        saved_active
    } else {
        last
    };
    match root.panel_by_id_mut(panel_id) {
        Some(panel) => {
            panel.tabs = tabs;
            panel.active_tab = active;
        },
        None => {},
    }
}

/// The panel that has the focus after a restore: the saved one if the tree
/// holds it, else the first panel.
pub open spec fn restored_focus_spec<T>(root: crate::split::SplitNode<T>, focused: u32) -> u32 {
    if crate::split::find_panel(root, focused) is Some {
        focused
    } else {
        crate::split::leaves(root)[0]
    }
}

/// [`restored_focus_spec`].
pub fn restored_focus<T>(root: &crate::split::SplitNode<T>, focused: u32) -> (r: u32)
    ensures
        r == restored_focus_spec(*root, focused),
{
    if root.panel_by_id(focused).is_none() {
        let leaves = root.collect_leaves();
        proof {
            lemma_leaves_nonempty(*root);
        }
        if leaves.len() > 0 {
            leaves[0]
        } else {
            0
        }
    } else {
        focused
    }
}

/// The remote host of a restored workspace: one only when the host and
/// the user are given.
pub fn workspace_ssh_info(host: &str, port: u16, user: &str) -> (r: Option<
    crate::terminal::ssh::SshTabInfo,
>)
    ensures
        match r {
            Some(i) => host@.len() > 0 && user@.len() > 0 && i.host@ == host@ && i.port == port
                && i.user@ == user@,
            None => host@.len() == 0 || user@.len() == 0,
        },
{
    if !host.is_empty() && !user.is_empty() {
        Some(crate::terminal::ssh::SshTabInfo { host: host.to_owned(), port, user: user.to_owned() })
    } else {
        None
    }
}

/// A restored workspace around the tree `root`: its saved name, next panel
/// id and password, its remote host, and the focus as
/// [`restored_focus_spec`].
pub fn assemble_workspace<T>(sw: &SessionWorkspace, root: crate::split::SplitNode<T>) -> (r:
    crate::workspace::Workspace<T>)
    ensures
        r.name@ == sw.name@,
        r.root == root,
        r.focused_panel_id == restored_focus_spec(root, sw.focused_panel_id),
        r.next_panel_id == sw.next_panel_id,
        r.ssh_password@ == sw.ssh_password@,
        match r.ssh_info {
            Some(i) => sw.ssh_host@.len() > 0 && sw.ssh_user@.len() > 0 && i.host@ == sw.ssh_host@
                && i.port == sw.ssh_port && i.user@ == sw.ssh_user@,
            None => sw.ssh_host@.len() == 0 || sw.ssh_user@.len() == 0,
        },
{
    let focused = restored_focus(&root, sw.focused_panel_id);
    crate::workspace::Workspace {
        name: sw.name.clone(),
        root,
        focused_panel_id: focused,
        next_panel_id: sw.next_panel_id,
        ssh_info: workspace_ssh_info(sw.ssh_host.as_str(), sw.ssh_port, sw.ssh_user.as_str()),
        ssh_password: sw.ssh_password.clone(),
    }
}

/// How a saved tab comes back.
pub enum TabRestore {
    /// A tab of a remote host comes back without its connection, titled
    /// with the host.
    Disconnected { title: String, info: crate::terminal::ssh::SshTabInfo },
    /// A tab whose shell had exited comes back with its title and
    /// scrollback only.
    Exited,
    /// A new shell starts, in the saved directory when it is given and
    /// still exists.
    Live { cwd: Option<String> },
}

/// The title of a restored tab of a remote host.
pub open spec fn disconnected_title(host: Seq<char>, port: u16, user: Seq<char>) -> Seq<char> {
    crate::terminal::ssh::connection_key_spec(host, port, user) + " (disconnected)"@
}

/// How the saved tab `st` comes back: a remote tab disconnected, a tab
/// whose shell exited as it was, any other with a new shell.
pub fn restore_tab_plan(st: &SessionTab) -> (r: TabRestore)
    ensures
        match r {
            TabRestore::Disconnected { title, info } => st.kind@ == "ssh"@ && title@
                == disconnected_title(st.ssh_host@, st.ssh_port, st.ssh_user@) && info.host@
                == st.ssh_host@ && info.port == st.ssh_port && info.user@ == st.ssh_user@,
            TabRestore::Exited => st.kind@ != "ssh"@ && st.child_exited,
            TabRestore::Live { cwd } => st.kind@ != "ssh"@ && !st.child_exited && match cwd {
                Some(c) => st.cwd@.len() > 0 && c@ == st.cwd@,
                None => st.cwd@.len() == 0,
            },
        },
{
    if str_eq(st.kind.as_str(), "ssh") {
        let mut title = crate::terminal::ssh::connection_key(
            st.ssh_host.as_str(),
            st.ssh_port,
            st.ssh_user.as_str(),
        );
        title.push_str(" (disconnected)");
        return TabRestore::Disconnected {
            title,
            info: crate::terminal::ssh::SshTabInfo {
                host: st.ssh_host.clone(),
                port: st.ssh_port,
                user: st.ssh_user.clone(),
            },
        };
    }
    if st.child_exited {
        return TabRestore::Exited;
    }
    if st.cwd.as_str().is_empty() {
        TabRestore::Live { cwd: None }
    } else {
        TabRestore::Live { cwd: Some(st.cwd.clone()) }
    }
}

/// The manager of the restored workspaces, with the saved active
/// workspace and sidebar; an error when none could be restored.
pub fn finish_restore<T>(
    workspaces: Vec<crate::workspace::Workspace<T>>,
    active_workspace: usize,
    sidebar_visible: bool,
    sidebar_width_px: i32,
) -> (r: Result<crate::workspace::WorkspaceManager<T>, String>)
    requires
        workspaces@.len() < u32::MAX,
    ensures
        workspaces@.len() == 0 <==> r is Err,
        r matches Err(e) ==> e@ == "All workspaces failed to restore"@,
        r matches Ok(wm) ==> wm.valid() && wm.workspaces@ == workspaces@ && wm.active == (if active_workspace
            < workspaces@.len() - 1 {
            active_workspace as int
        } else {
            workspaces@.len() - 1
        }) && wm.sidebar_visible == sidebar_visible && wm.sidebar_width_px
            == crate::workspace::clamp_spec(
            sidebar_width_px as int,
            crate::workspace::SIDEBAR_MIN_WIDTH as int,
            crate::workspace::SIDEBAR_MAX_WIDTH as int,
        ) && wm.next_id() == workspaces@.len() + 1,
{
    if workspaces.len() == 0 {
        return Err("All workspaces failed to restore".to_owned());
    }
    let next_id = workspaces.len() as u32 + 1;
    Ok(
        crate::workspace::WorkspaceManager::from_restored(
            workspaces,
            active_workspace,
            sidebar_visible,
            sidebar_width_px,
            next_id,
        ),
    )
}

// ---------------------------------------------------------------------------
// Laws of saving and restoring.
// ---------------------------------------------------------------------------

/// Two trees have the same shape: the same splits, with the same
/// directions and ratios, and the same panel ids in the same places.
pub open spec fn same_shape<T, U>(a: crate::split::SplitNode<T>, b: crate::split::SplitNode<U>) -> bool
    decreases a,
{
    match a {
        crate::split::SplitNode::Leaf(p) => match b {
            crate::split::SplitNode::Leaf(q) => p.id == q.id,
            _ => false,
        },
        crate::split::SplitNode::Split { direction, ratio, left, right } => match b {
            crate::split::SplitNode::Split { direction: d, ratio: r, left: l, right: rr } => direction
                == d && ratio == r && same_shape(*left, *l) && same_shape(*right, *rr),
            _ => false,
        },
    }
}

/// Restoring a saved tree gives back its shape: the same splits, directions,
/// ratios and panel ids.
pub proof fn lemma_restored_shape<T, U>(
    n: crate::split::SplitNode<T>,
    tabs: Seq<Seq<SavedTabView>>,
    s: crate::split::SplitNode<U>,
    ch: i32,
)
    requires
        is_skeleton_of(s, saved_tree(n, tabs), ch),
    ensures
        same_shape(s, n),
    decreases n,
{
    reveal_strlit("vertical");
    reveal_strlit("horizontal");
    assert("vertical"@.len() != "horizontal"@.len());
    match n {
        crate::split::SplitNode::Leaf(_) => {},
        crate::split::SplitNode::Split { direction, ratio, left, right } => {
            match s {
                crate::split::SplitNode::Split { left: l, right: r, .. } => {
                    lemma_restored_shape(*left, tabs, *l, ch);
                    lemma_restored_shape(
                        *right,
                        tabs.skip(crate::split::leaves(*left).len() as int),
                        *r,
                        ch,
                    );
                },
                _ => {},
            }
        },
    }
}

/// Each panel of a saved tree carries the id of the panel in the same place
/// and the tabs given for it.
pub proof fn lemma_saved_panels_carry_tabs<T>(n: crate::split::SplitNode<T>, tabs: Seq<Seq<SavedTabView>>)
    requires
        tabs.len() >= crate::split::leaves(n).len(),
    ensures
        saved_panels(saved_tree(n, tabs)).len() == crate::split::leaves(n).len(),
        forall|i: int|
            0 <= i < crate::split::leaves(n).len() ==> (#[trigger] saved_panels(saved_tree(n, tabs))[i]).id
                == crate::split::leaves(n)[i] && saved_panels(saved_tree(n, tabs))[i].tabs == tabs[i],
    decreases n,
{
    match n {
        crate::split::SplitNode::Leaf(_) => {},
        crate::split::SplitNode::Split { left, right, .. } => {
            let nl = crate::split::leaves(*left).len() as int;
            let rest = tabs.skip(nl);
            lemma_saved_panels_carry_tabs(*left, tabs);
            lemma_saved_panels_carry_tabs(*right, rest);
            let a = saved_panels(saved_tree(*left, tabs));
            let b = saved_panels(saved_tree(*right, rest));
            assert forall|i: int| 0 <= i < crate::split::leaves(n).len() implies (#[trigger] saved_panels(
                saved_tree(n, tabs),
            )[i]).id == crate::split::leaves(n)[i] && saved_panels(saved_tree(n, tabs))[i].tabs
                == tabs[i] by {
                if i >= nl {
                    assert(rest[i - nl] == tabs[i]);
                    assert(b[i - nl].id == crate::split::leaves(*right)[i - nl]);
                }
            }
        },
    }
}



// ---------------------------------------------------------------------------
// Named sessions.
// ---------------------------------------------------------------------------

/// The name of a session file: the file name without its `.json` ending;
/// `None` for a file without one.
pub open spec fn json_stem(name: Seq<char>) -> Option<Seq<char>> {
    if name.len() >= 5 && name.subrange(name.len() - 5, name.len() as int) == ".json"@ {
        Some(name.subrange(0, name.len() - 5))
    } else {
        None
    }
}

/// The names of the session files among `names`, in order.
pub open spec fn json_stems(names: Seq<Seq<char>>) -> Seq<Seq<char>>
    decreases names.len(),
{
    if names.len() == 0 {
        Seq::empty()
    } else {
        let rest = json_stems(names.drop_last());
        match json_stem(names.last()) {
            Some(s) => rest.push(s),
            None => rest,
        }
    }
}

fn json_stem_text(name: &str) -> (r: Option<String>)
    ensures
        opt_view(r) == json_stem(name@),
{
    let v = crate::text::chars_of(name);
    let suffix = crate::text::chars_of(".json");
    if v.len() >= 5 && suffix.len() == 5 {
        let tail = crate::text::chars_range(&v, v.len() - 5, v.len());
        if crate::text::seq_eq(&tail, &suffix) {
            return Some(crate::text::string_of(&crate::text::chars_range(&v, 0, v.len() - 5)));
        }
    }
    proof {
        reveal_strlit(".json");
    }
    None
}

/// The named sessions among the files of the sessions directory: the
/// names of the `.json` files without that ending, sorted.
pub fn session_names(file_names: Vec<String>) -> (r: Vec<String>)
    ensures
        strings_view(r@) == json_stems(strings_view(file_names@)).sort_by(crate::text::lex_order()),
{
    let ghost fv = strings_view(file_names@);
    let mut names: Vec<String> = Vec::new();
    let mut i: usize = 0;
    while i < file_names.len()
        invariant
            i <= file_names@.len(),
            fv == strings_view(file_names@),
            strings_view(names@) == json_stems(fv.subrange(0, i as int)),
        decreases file_names@.len() - i,
    {
        let ghost p = fv.subrange(0, i as int + 1);
        assert(p.drop_last() =~= fv.subrange(0, i as int));
        assert(p.last() == file_names@[i as int]@);
        match json_stem_text(file_names[i].as_str()) {
            Some(s) => {
                let ghost before = names@;
                names.push(s);
                assert(strings_view(names@) =~= strings_view(before).push(names@[before.len() as int]@));
            },
            None => {},
        }
        i += 1;
    }
    assert(fv.subrange(0, fv.len() as int) == fv);
    crate::text::sort_strings(names)
}


} // verus!
