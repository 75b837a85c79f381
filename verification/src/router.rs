//! Where keyboard input goes, the shell or the AI prompt, the prompt's
//! history, and the state machine that carries a conversation with the AI
//! through its tool calls: each call runs as a command in the shell, its
//! output is captured between hidden markers, and the result goes back to
//! the AI.
//!
//! The router does no input or output itself. Each step returns the
//! [`RouterAction`]s to perform, in order: text for the terminal, bytes for
//! the shell, a request for the AI, and so on.
use std::collections::VecDeque;
use vstd::prelude::*;

use crate::ai::bridge::{AiResponse, ResponseView};
use crate::ai::context::{system_text, user_text, ContextBuilder};
use crate::ai::conversation::{
    messages_view, tool_calls_view, trim_by_size_spec, without_trailing_orphans, ChatMessage,
    ConversationHistory, MessageView, ToolCall, ToolCallView, MAX_CHARS,
};
use crate::ai::conversation::trim_spec as trim_conversation;
use crate::capture::{
    capture_parse, capture_result, capture_result_text, captured_text, command_script,
    command_script_text, end_marker, end_marker_text, hidden, hidden_marker, is_marker_id,
    lossy_text, new_marker_id, parse_capture, script_path, script_path_text, start_marker,
    start_marker_text, truncation_fits, truncation_ok,
};
use crate::config::TaiConfig;
use crate::text::{
    chars_of, contains_seq, find_first_exec, push_replacing_newlines, replace_newlines, str_eq,
    strings_view, trim_spec, trim_string, lemma_trim_idempotent,
};

verus! {

broadcast use vstd::std_specs::vecdeque::group_vec_dequeue_axioms;

/// Where typed keys go.
#[derive(Clone, Copy, Debug, PartialEq, Eq, Structural)]
pub enum InputMode {
    /// To the shell.
    Shell,
    /// Into the AI prompt.
    AiPrompt,
    /// The AI is answering or a command of the AI is running.
    AiStreaming,
    /// A command of the AI waits for the user's confirmation.
    CommandConfirm,
}

/// A command of the AI that waits for confirmation.
pub struct PendingCommand {
    pub command: String,
    pub explanation: String,
    pub tool_call_id: String,
}

/// The plain content of a [`PendingCommand`].
pub struct PendingView {
    pub command: Seq<char>,
    pub explanation: Seq<char>,
    pub tool_call_id: Seq<char>,
}

impl View for PendingCommand {
    type V = PendingView;

    open spec fn view(&self) -> PendingView {
        PendingView {
            command: self.command@,
            explanation: self.explanation@,
            tool_call_id: self.tool_call_id@,
        }
    }
}

/// A command that the AI asked to run, waiting its turn.
pub struct QueuedToolCall {
    pub id: String,
    pub name: String,
    pub command: String,
    pub explanation: String,
}

/// The plain content of a [`QueuedToolCall`].
pub struct QueuedView {
    pub id: Seq<char>,
    pub name: Seq<char>,
    pub command: Seq<char>,
    pub explanation: Seq<char>,
}

impl View for QueuedToolCall {
    type V = QueuedView;

    open spec fn view(&self) -> QueuedView {
        QueuedView {
            id: self.id@,
            name: self.name@,
            command: self.command@,
            explanation: self.explanation@,
        }
    }
}

/// Views of a sequence of queued calls.
pub open spec fn queue_view(v: Seq<QueuedToolCall>) -> Seq<QueuedView> {
    v.map_values(|q: QueuedToolCall| q@)
}

/// The output of a running command, as it is being captured.
struct CommandCapture {
    start_marker: String,
    end_marker: String,
    tool_call_id: String,
    raw_output: Vec<u8>,
}

/// The plain content of a capture.
pub struct CaptureView {
    pub start_marker: Seq<char>,
    pub end_marker: Seq<char>,
    pub tool_call_id: Seq<char>,
    pub raw: Seq<u8>,
}

/// The state of the router as plain values.
#[verifier::ext_equal]
pub struct RouterView {
    pub mode: InputMode,
    /// The text typed into the AI prompt.
    pub input: Seq<char>,
    /// Prompts and shell commands, oldest first.
    pub history: Seq<Seq<char>>,
    /// The entry of `history` shown in the prompt while browsing it.
    pub history_index: Option<usize>,
    /// What was typed before browsing started.
    pub draft: Seq<char>,
    pub pending: Option<PendingView>,
    /// Shell commands typed, oldest first.
    pub commands: Seq<Seq<char>>,
    /// The shell line being typed.
    pub line: Seq<char>,
    pub ai_available: bool,
    pub conversation: Seq<MessageView>,
    pub conversation_limit: nat,
    pub context_lines: nat,
    pub auto_execute: bool,
    /// The text of the AI's reply so far.
    pub text: Seq<char>,
    pub capture: Option<CaptureView>,
    pub queue: Seq<QueuedView>,
    /// Tool calls of the reply being received.
    pub pending_calls: Seq<ToolCallView>,
    /// A command finished and its result waits to go to the AI.
    pub pending_dispatch: bool,
    pub first_token: bool,
    pub after_command: bool,
}

/// Routes input and runs the AI's tool calls.
pub struct InputRouter {
    mode: InputMode,
    ai_input_buffer: String,
    unified_history: Vec<String>,
    history_index: Option<usize>,
    history_draft: String,
    pending_command: Option<PendingCommand>,
    command_history: Vec<String>,
    current_line_buffer: String,
    ai_available: bool,
    conversation: ConversationHistory,
    context_builder: ContextBuilder,
    auto_execute: bool,
    ai_text_buffer: String,
    command_capture: Option<CommandCapture>,
    tool_call_queue: Vec<QueuedToolCall>,
    pending_tool_calls: Vec<ToolCall>,
    has_pending_dispatch: bool,
    ai_first_token: bool,
    ai_after_command: bool,
}

/// Most prompts and commands kept in the history.
pub const HISTORY_LIMIT: usize = 200;

/// Most shell commands kept for the AI's context.
pub const COMMAND_LIMIT: usize = 100;

/// `history` after recording `entry`: trimmed, skipped when empty or equal
/// to the newest entry, and the oldest entry dropped past [`HISTORY_LIMIT`].
pub open spec fn record_history(history: Seq<Seq<char>>, entry: Seq<char>) -> Seq<Seq<char>> {
    let t = trim_spec(entry);
    if t.len() == 0 {
        history
    } else {
        let h = if history.len() == 0 || history.last() != t {
            history.push(t)
        } else {
            history
        };
        if h.len() > HISTORY_LIMIT {
            h.drop_first()
        } else {
            h
        }
    }
}

/// `commands` after recording `line`, the oldest dropped past [`COMMAND_LIMIT`].
pub open spec fn record_command(commands: Seq<Seq<char>>, line: Seq<char>) -> Seq<Seq<char>> {
    let c = commands.push(line);
    if c.len() > COMMAND_LIMIT {
        c.drop_first()
    } else {
        c
    }
}

/// A printable ASCII character other than the space.
pub open spec fn is_ascii_graphic(c: char) -> bool {
    '!' <= c && c <= '~'
}

/// The state after the shell sees the key `c`: Enter records a non-empty
/// line as a command and in the history; Backspace and Delete drop the
/// last character; printable ASCII and the space extend the line.
pub open spec fn track_shell_char_spec(v: RouterView, c: char) -> RouterView {
    if v.mode != InputMode::Shell {
        v
    } else if c == '\n' || c == '\r' {
        if v.line.len() == 0 {
            v
        } else {
            RouterView {
                commands: record_command(v.commands, v.line),
                history: record_history(v.history, v.line),
                line: Seq::empty(),
                ..v
            }
        }
    } else if c == '\x7f' || c == '\x08' {
        if v.line.len() == 0 {
            v
        } else {
            RouterView { line: v.line.drop_last(), ..v }
        }
    } else if is_ascii_graphic(c) || c == ' ' {
        RouterView { line: v.line.push(c), ..v }
    } else {
        v
    }
}

/// The state after the AI prompt is switched on or off: on only when the AI
/// is available, with an empty prompt; off from the prompt, clearing it.
pub open spec fn toggle_ai_mode_spec(v: RouterView) -> RouterView {
    match v.mode {
        InputMode::Shell => if v.ai_available {
            RouterView {
                mode: InputMode::AiPrompt,
                input: Seq::empty(),
                history_index: None,
                draft: Seq::empty(),
                ..v
            }
        } else {
            v
        },
        InputMode::AiPrompt => RouterView {
            mode: InputMode::Shell,
            input: Seq::empty(),
            history_index: None,
            ..v
        },
        _ => v,
    }
}

/// The state after Up in the prompt: the newest entry, saving what was
/// typed, or the entry before the one shown.
pub open spec fn history_up_spec(v: RouterView) -> RouterView {
    if v.mode != InputMode::AiPrompt || v.history.len() == 0 {
        v
    } else {
        match v.history_index {
            None => RouterView {
                draft: v.input,
                history_index: Some((v.history.len() - 1) as usize),
                input: v.history.last(),
                ..v
            },
            Some(i) => if i > 0 {
                RouterView {
                    history_index: Some((i - 1) as usize),
                    input: v.history[i - 1],
                    ..v
                }
            } else {
                v
            },
        }
    }
}

/// The state after Down in the prompt: the entry after the one shown, or,
/// past the newest, what was typed before browsing.
pub open spec fn history_down_spec(v: RouterView) -> RouterView {
    if v.mode != InputMode::AiPrompt {
        v
    } else {
        match v.history_index {
            None => v,
            Some(i) => if i + 1 < v.history.len() {
                RouterView { history_index: Some((i + 1) as usize), input: v.history[i + 1], ..v }
            } else {
                RouterView { history_index: None, input: v.draft, draft: Seq::empty(), ..v }
            },
        }
    }
}

/// `index`, when there is one, is a position in a sequence of length `n`.
pub open spec fn index_within(index: Option<usize>, n: int) -> bool {
    match index {
        Some(i) => i < n,
        None => true,
    }
}

impl InputRouter {
    /// The state as plain values.
    pub closed spec fn view(&self) -> RouterView {
        RouterView {
            mode: self.mode,
            input: self.ai_input_buffer@,
            history: strings_view(self.unified_history@),
            history_index: self.history_index,
            draft: self.history_draft@,
            pending: match self.pending_command {
                Some(p) => Some(p@),
                None => None,
            },
            commands: strings_view(self.command_history@),
            line: self.current_line_buffer@,
            ai_available: self.ai_available,
            conversation: self.conversation@,
            conversation_limit: self.conversation.limit(),
            context_lines: self.context_builder.max_context_lines as nat,
            auto_execute: self.auto_execute,
            text: self.ai_text_buffer@,
            capture: match self.command_capture {
                Some(c) => Some(
                    CaptureView {
                        start_marker: c.start_marker@,
                        end_marker: c.end_marker@,
                        tool_call_id: c.tool_call_id@,
                        raw: c.raw_output@,
                    },
                ),
                None => None,
            },
            queue: queue_view(self.tool_call_queue@),
            pending_calls: tool_calls_view(self.pending_tool_calls@),
            pending_dispatch: self.has_pending_dispatch,
            first_token: self.ai_first_token,
            after_command: self.ai_after_command,
        }
    }

    /// The conversation's limits fit the arithmetic they are used in, and
    /// in the AI prompt the history entry being shown is one of the history.
    pub closed spec fn wf(&self) -> bool {
        &&& self.conversation.wf()
        &&& self.mode == InputMode::AiPrompt ==> index_within(
            self.history_index,
            self.unified_history.len() as int,
        )
    }

    /// A router in shell mode with empty histories and conversation; the AI
    /// prompt opens only when `ai_available`.
    pub fn new(config: &TaiConfig, ai_available: bool) -> (r: Self)
        requires
            2 * config.ai.max_history <= usize::MAX,
        ensures
            r.wf(),
            r@ == (RouterView {
                mode: InputMode::Shell,
                input: Seq::empty(),
                history: Seq::empty(),
                history_index: None,
                draft: Seq::empty(),
                pending: None,
                commands: Seq::empty(),
                line: Seq::empty(),
                ai_available,
                conversation: Seq::empty(),
                conversation_limit: config.ai.max_history as nat,
                context_lines: config.ai.max_context_lines as nat,
                auto_execute: config.ai.auto_execute,
                text: Seq::empty(),
                capture: None,
                queue: Seq::empty(),
                pending_calls: Seq::empty(),
                pending_dispatch: false,
                first_token: false,
                after_command: false,
            }),
    {
        let r = InputRouter {
            mode: InputMode::Shell,
            ai_input_buffer: String::new(),
            unified_history: Vec::new(),
            history_index: None,
            history_draft: String::new(),
            pending_command: None,
            command_history: Vec::new(),
            current_line_buffer: String::new(),
            ai_available,
            conversation: ConversationHistory::new(config.ai.max_history),
            context_builder: ContextBuilder::new(config.ai.max_context_lines),
            auto_execute: config.ai.auto_execute,
            ai_text_buffer: String::new(),
            command_capture: None,
            tool_call_queue: Vec::new(),
            pending_tool_calls: Vec::new(),
            has_pending_dispatch: false,
            ai_first_token: false,
            ai_after_command: false,
        };
        assert(r@.history =~= Seq::<Seq<char>>::empty());
        assert(r@.commands =~= Seq::<Seq<char>>::empty());
        assert(r@.queue =~= Seq::<QueuedView>::empty());
        assert(r@.pending_calls =~= Seq::<ToolCallView>::empty());
        r
    }

    /// The input mode.
    pub fn mode(&self) -> (r: InputMode)
        ensures
            r == self@.mode,
    {
        self.mode
    }

    /// Whether the AI's commands run without confirmation.
    pub fn auto_execute(&self) -> (r: bool)
        ensures
            r == self@.auto_execute,
    {
        self.auto_execute
    }

    /// Switches between running the AI's commands at once and asking first.
    pub fn toggle_auto_execute(&mut self)
        ensures
            final(self)@ == (RouterView { auto_execute: !old(self)@.auto_execute, ..old(self)@ }),
            old(self).wf() ==> final(self).wf(),
    {
        self.auto_execute = !self.auto_execute;
    }

    /// Whether the AI prompt can be opened.
    pub fn ai_available(&self) -> (r: bool)
        ensures
            r == self@.ai_available,
    {
        self.ai_available
    }

    /// The text typed into the AI prompt.
    pub fn ai_input_buffer(&self) -> (r: &str)
        ensures
            r@ == self@.input,
    {
        self.ai_input_buffer.as_str()
    }

    /// Prompts and shell commands, oldest first.
    pub fn unified_history(&self) -> (r: &Vec<String>)
        ensures
            strings_view(r@) == self@.history,
    {
        &self.unified_history
    }

    /// Shell commands typed, oldest first.
    pub fn command_history(&self) -> (r: &Vec<String>)
        ensures
            strings_view(r@) == self@.commands,
    {
        &self.command_history
    }

    /// The entry of the history shown in the prompt, while browsing it.
    pub fn history_index(&self) -> (r: Option<usize>)
        ensures
            r == self@.history_index,
    {
        self.history_index
    }

    /// The messages of the conversation with the AI.
    pub fn conversation_messages(&self) -> (r: &VecDeque<ChatMessage>)
        ensures
            messages_view(r@) == self@.conversation,
    {
        self.conversation.messages()
    }

    /// Where the output of the running command is collected, if one runs.
    pub fn capture_buffer(&mut self) -> (r: Option<&mut Vec<u8>>)
        ensures
            old(self).wf() ==> final(self).wf(),
            match r {
                Some(b) => old(self)@.capture matches Some(c) && b@ == c.raw && final(self)@ == (
                RouterView { capture: Some(CaptureView { raw: final(b)@, ..c }), ..old(self)@ }),
                None => old(self)@.capture is None && final(self)@ == old(self)@,
            },
    {
        match &mut self.command_capture {
            Some(c) => Some(&mut c.raw_output),
            None => None,
        }
    }

    /// Switches the AI prompt on or off.
    pub fn toggle_ai_mode(&mut self)
        ensures
            final(self)@ == toggle_ai_mode_spec(old(self)@),
            old(self).wf() ==> final(self).wf(),
    {
        match self.mode {
            InputMode::Shell => {
                if self.ai_available {
                    self.mode = InputMode::AiPrompt;
                    self.ai_input_buffer.clear();
                    self.history_index = None;
                    self.history_draft.clear();
                }
            },
            InputMode::AiPrompt => {
                self.mode = InputMode::Shell;
                self.ai_input_buffer.clear();
                self.history_index = None;
            },
            _ => {},
        }
    }

    /// Types a character into the AI prompt.
    pub fn handle_ai_prompt_char(&mut self, c: char)
        ensures
            final(self)@ == (if old(self)@.mode == InputMode::AiPrompt {
                RouterView { input: old(self)@.input.push(c), ..old(self)@ }
            } else {
                old(self)@
            }),
            old(self).wf() ==> final(self).wf(),
    {
        if self.mode == InputMode::AiPrompt {
            self.ai_input_buffer.push(c);
        }
    }

    /// Deletes the last character of the AI prompt.
    pub fn handle_ai_prompt_backspace(&mut self)
        ensures
            final(self)@ == (if old(self)@.mode == InputMode::AiPrompt && old(self)@.input.len() > 0 {
                RouterView { input: old(self)@.input.drop_last(), ..old(self)@ }
            } else {
                old(self)@
            }),
            old(self).wf() ==> final(self).wf(),
    {
        if self.mode == InputMode::AiPrompt {
            self.ai_input_buffer.pop();
        }
    }

    /// Shows the previous entry of the history in the AI prompt.
    pub fn handle_ai_prompt_history_up(&mut self)
        requires
            old(self).wf(),
        ensures
            final(self)@ == history_up_spec(old(self)@),
            final(self).wf(),
    {
        if self.mode != InputMode::AiPrompt || self.unified_history.len() == 0 {
            return;
        }
        match self.history_index {
            None => {
                self.history_draft = self.ai_input_buffer.clone();
                let idx = self.unified_history.len() - 1;
                self.history_index = Some(idx);
                self.ai_input_buffer = self.unified_history[idx].clone();
            },
            Some(idx) => {
                if idx > 0 {
                    let new_idx = idx - 1;
                    self.history_index = Some(new_idx);
                    self.ai_input_buffer = self.unified_history[new_idx].clone();
                }
            },
        }
    }

    /// Shows the next entry of the history in the AI prompt, or what was
    /// typed before browsing.
    pub fn handle_ai_prompt_history_down(&mut self)
        ensures
            final(self)@ == history_down_spec(old(self)@),
            old(self).wf() ==> final(self).wf(),
    {
        if self.mode != InputMode::AiPrompt {
            return;
        }
        match self.history_index {
            Some(idx) => {
                if idx < self.unified_history.len() && idx + 1 < self.unified_history.len() {
                    let new_idx = idx + 1;
                    self.history_index = Some(new_idx);
                    self.ai_input_buffer = self.unified_history[new_idx].clone();
                } else {
                    self.history_index = None;
                    self.ai_input_buffer = self.history_draft.clone();
                    self.history_draft.clear();
                }
            },
            None => {},
        }
    }

    /// Leaves the AI prompt, clearing it.
    pub fn handle_ai_prompt_cancel(&mut self)
        ensures
            final(self)@ == (if old(self)@.mode == InputMode::AiPrompt {
                RouterView { mode: InputMode::Shell, input: Seq::empty(), ..old(self)@ }
            } else {
                old(self)@
            }),
            old(self).wf() ==> final(self).wf(),
    {
        if self.mode == InputMode::AiPrompt {
            self.mode = InputMode::Shell;
            self.ai_input_buffer.clear();
        }
    }

    /// Follows a key sent to the shell, to know the commands typed.
    pub fn track_shell_char(&mut self, c: char)
        ensures
            final(self)@ == track_shell_char_spec(old(self)@, c),
            old(self).wf() ==> final(self).wf(),
    {
        if self.mode == InputMode::Shell {
            if c == '\n' || c == '\r' {
                if !self.current_line_buffer.as_str().is_empty() {
                    let line = self.current_line_buffer.clone();
                    let ghost before = self.command_history@;
                    self.command_history.push(self.current_line_buffer.clone());
                    if self.command_history.len() > COMMAND_LIMIT {
                        self.command_history.remove(0);
                    }
                    assert(strings_view(self.command_history@) =~= record_command(
                        strings_view(before),
                        line@,
                    ));
                    self.push_unified_history(line.as_str());
                    self.current_line_buffer.clear();
                }
            } else if c == '\x7f' || c == '\x08' {
                self.current_line_buffer.pop();
            } else if ('!' <= c && c <= '~') || c == ' ' {
                self.current_line_buffer.push(c);
            }
        }
    }

    fn push_unified_history(&mut self, entry: &str)
        ensures
            final(self)@ == (RouterView {
                history: record_history(old(self)@.history, entry@),
                ..old(self)@
            }),
            final(self).conversation == old(self).conversation,
            old(self).wf() && old(self)@.mode != InputMode::AiPrompt ==> final(self).wf(),
    {
        let t = trim_string(entry);
        if t.as_str().is_empty() {
            return;
        }
        let n = self.unified_history.len();
        let ghost before = self.unified_history@;
        if n == 0 || !str_eq(self.unified_history[n - 1].as_str(), t.as_str()) {
            self.unified_history.push(t);
        }
        if self.unified_history.len() > HISTORY_LIMIT {
            self.unified_history.remove(0);
        }
        assert(strings_view(self.unified_history@) =~= record_history(
            strings_view(before),
            entry@,
        ));
    }

    /// Replaces the histories and the choice to run commands at once, as
    /// saved in a session.
    pub fn restore_history(&mut self, unified: Vec<String>, commands: Vec<String>, auto_exec: bool)
        ensures
            final(self)@ == (RouterView {
                history: strings_view(unified@),
                commands: strings_view(commands@),
                auto_execute: auto_exec,
                ..old(self)@
            }),
            old(self).wf() && (old(self)@.mode == InputMode::AiPrompt ==> index_within(
                old(self)@.history_index,
                unified@.len() as int,
            )) ==> final(self).wf(),
    {
        self.unified_history = unified;
        self.command_history = commands;
        self.auto_execute = auto_exec;
    }

    /// Appends the messages of a saved conversation, then trims it.
    pub fn restore_conversation(&mut self, messages: Vec<ChatMessage>)
        requires
            old(self).wf(),
        ensures
            final(self).wf(),
            final(self)@ == (RouterView {
                conversation: trim_conversation(
                    old(self)@.conversation + messages_view(messages@),
                    old(self)@.conversation_limit,
                ),
                ..old(self)@
            }),
    {
        self.conversation.push_restored(messages);
    }
}


// ---------------------------------------------------------------------------
// What the router asks its owner to do.
// ---------------------------------------------------------------------------

/// One thing for the owner of the router to do; a step returns them in the
/// order in which they are to be done.
pub enum RouterAction {
    /// Show text in the terminal.
    TerminalWrite(String),
    /// Send text to the shell.
    PtyWrite(String),
    /// Turn the shell's echo on or off.
    SetEcho(bool),
    /// Send these messages to the AI.
    SendChat(Vec<ChatMessage>),
    /// Ask the user to confirm a command.
    ShowOverlay { command: String, explanation: String },
    /// Close the confirmation.
    HideOverlay,
    /// Write a file.
    WriteFile { path: String, contents: String },
    /// A capture has started: its time limit counts from now.
    StartCaptureTimer,
}

/// The plain content of a [`RouterAction`].
pub enum ActionView {
    TerminalWrite(Seq<char>),
    PtyWrite(Seq<char>),
    SetEcho(bool),
    SendChat(Seq<MessageView>),
    ShowOverlay { command: Seq<char>, explanation: Seq<char> },
    HideOverlay,
    WriteFile { path: Seq<char>, contents: Seq<char> },
    StartCaptureTimer,
}

impl View for RouterAction {
    type V = ActionView;

    open spec fn view(&self) -> ActionView {
        match self {
            RouterAction::TerminalWrite(s) => ActionView::TerminalWrite(s@),
            RouterAction::PtyWrite(s) => ActionView::PtyWrite(s@),
            RouterAction::SetEcho(b) => ActionView::SetEcho(*b),
            RouterAction::SendChat(m) => ActionView::SendChat(messages_view(m@)),
            RouterAction::ShowOverlay { command, explanation } => ActionView::ShowOverlay {
                command: command@,
                explanation: explanation@,
            },
            RouterAction::HideOverlay => ActionView::HideOverlay,
            RouterAction::WriteFile { path, contents } => ActionView::WriteFile {
                path: path@,
                contents: contents@,
            },
            RouterAction::StartCaptureTimer => ActionView::StartCaptureTimer,
        }
    }
}

/// Views of a sequence of actions.
pub open spec fn actions_view(v: Seq<RouterAction>) -> Seq<ActionView> {
    v.map_values(|a: RouterAction| a@)
}

fn push_action(acts: &mut Vec<RouterAction>, a: RouterAction)
    ensures
        actions_view(final(acts)@) == actions_view(old(acts)@).push(a@),
{
    let ghost av = a@;
    acts.push(a);
    assert(actions_view(acts@) =~= actions_view(old(acts)@).push(av));
}

fn append_actions(acts: &mut Vec<RouterAction>, more: Vec<RouterAction>)
    ensures
        actions_view(final(acts)@) == actions_view(old(acts)@) + actions_view(more@),
{
    let mut more = more;
    let ghost m = more@;
    acts.append(&mut more);
    assert(actions_view(acts@) =~= actions_view(old(acts)@) + actions_view(m));
}

/// What the system message is made of: the operating system, the
/// architecture, the shell and the working directory.
pub struct PromptEnv {
    pub os: String,
    pub arch: String,
    pub shell: String,
    pub cwd: String,
}

/// The system message for an environment.
pub open spec fn system_view(env: PromptEnv) -> MessageView {
    MessageView::System { content: system_text(env.os@, env.arch@, env.shell@, env.cwd@) }
}

/// Clears the line of the command's echo and the one above it.
pub const CLEAR_COMMAND_LINES: &'static str = "\r\x1b[2K\x1b[A\r\x1b[2K";

/// Shown before the AI's reply.
pub const REPLY_LABEL: &'static str = "\x1b[36m\x1b[1m TAI:\x1b[22m ";

/// The tool result when the user declines a command.
pub const CANCELLED_RESULT: &'static str = "User cancelled the command.";

/// The tool result when the user takes a command to edit it.
pub const EDITED_RESULT: &'static str = "User chose to edit the command manually.";

/// How a submitted prompt is echoed in the terminal.
pub open spec fn prompt_display(query: Seq<char>) -> Seq<char> {
    "\r\x1b[2K\x1b[1;35m\u{276f} "@ + replace_newlines(query, "\r\n  "@) + "\x1b[0m"@
}

/// How a piece of the AI's reply is shown.
pub open spec fn token_display(token: Seq<char>) -> Seq<char> {
    "\x1b[36m"@ + replace_newlines(token, "\r\n"@) + "\x1b[0m"@
}

/// How an error of the AI is shown.
pub open spec fn error_display(err: Seq<char>) -> Seq<char> {
    "\r\n\x1b[31mTAI Error: "@ + err + "\x1b[0m\r\n"@
}

/// How a command of the AI is echoed before it runs.
pub open spec fn command_display(command: Seq<char>) -> Seq<char> {
    "\r\n\x1b[1;33m$ "@ + command + "\x1b[0m"@
}

/// What the shell is sent to run a script.
pub open spec fn source_line(id: Seq<char>) -> Seq<char> {
    " . "@ + script_path(id) + "\n"@
}

/// The first step of submitting the prompt.
pub enum SubmitStep {
    /// Nothing to submit.
    Ignored,
    /// The prompt was `/clear`: the conversation was cleared.
    Cleared,
    /// Show this in the terminal, then complete the submission.
    Echo(String),
}

/// The plain content of a [`SubmitStep`].
pub enum SubmitView {
    Ignored,
    Cleared,
    Echo(Seq<char>),
}

impl View for SubmitStep {
    type V = SubmitView;

    open spec fn view(&self) -> SubmitView {
        match self {
            SubmitStep::Ignored => SubmitView::Ignored,
            SubmitStep::Cleared => SubmitView::Cleared,
            SubmitStep::Echo(s) => SubmitView::Echo(s@),
        }
    }
}

/// What a poll asks of its owner.
pub struct PollOutcome {
    /// To do, in order.
    pub actions: Vec<RouterAction>,
    /// Whether to hand the AI's pending reports to the router next.
    pub drain: bool,
}

/// The first step of submitting the prompt: `/clear` clears the
/// conversation and leaves the prompt; anything else is recorded in the
/// history and echoed.
pub open spec fn submit_spec(v: RouterView) -> (RouterView, SubmitView) {
    if v.mode != InputMode::AiPrompt || v.input.len() == 0 {
        (v, SubmitView::Ignored)
    } else if trim_spec(v.input) == "/clear"@ {
        (
            RouterView {
                conversation: Seq::empty(),
                input: Seq::empty(),
                history_index: None,
                mode: InputMode::Shell,
                ..v
            },
            SubmitView::Cleared,
        )
    } else {
        (
            RouterView { history: record_history(v.history, v.input), history_index: None, ..v },
            SubmitView::Echo(prompt_display(v.input)),
        )
    }
}

/// The second step: the question goes into the conversation with the
/// terminal's text and the recent commands, and the conversation goes to
/// the AI behind the system message.
pub open spec fn complete_submit_spec(v: RouterView, buffer: Seq<char>, system: MessageView) -> (
    RouterView,
    Seq<ActionView>,
) {
    if v.mode != InputMode::AiPrompt || v.input.len() == 0 {
        (v, Seq::empty())
    } else {
        let user = MessageView::User {
            content: user_text(v.context_lines, buffer, v.commands, v.input),
        };
        let conv = trim_by_size_spec(
            trim_conversation(v.conversation.push(user), v.conversation_limit),
            MAX_CHARS as nat,
        );
        (
            RouterView {
                conversation: conv,
                input: Seq::empty(),
                text: Seq::empty(),
                first_token: true,
                mode: InputMode::AiStreaming,
                ..v
            },
            if v.ai_available {
                seq![ActionView::SendChat(seq![system] + conv)]
            } else {
                Seq::empty()
            },
        )
    }
}

/// Running `command` for the tool call `tool_call_id` with the markers of
/// `id`: it is echoed, its script written, the capture started with echo
/// off, and the script sourced in the shell.
pub open spec fn execute_spec(
    v: RouterView,
    command: Seq<char>,
    tool_call_id: Seq<char>,
    id: Seq<char>,
) -> (RouterView, Seq<ActionView>) {
    (
        RouterView {
            capture: Some(
                CaptureView {
                    start_marker: start_marker(id),
                    end_marker: end_marker(id),
                    tool_call_id,
                    raw: Seq::empty(),
                },
            ),
            mode: InputMode::AiStreaming,
            ..v
        },
        seq![
            ActionView::TerminalWrite(command_display(command)),
            ActionView::WriteFile { path: script_path(id), contents: command_script(command, id) },
            ActionView::StartCaptureTimer,
            ActionView::SetEcho(false),
            ActionView::PtyWrite(source_line(id)),
        ],
    )
}

/// Output and exit code of a capture, as read from its bytes.
pub open spec fn capture_report(c: CaptureView) -> (Seq<char>, i32) {
    capture_parse(lossy_text(c.raw), c.start_marker, c.end_marker)
}

/// The end marker has arrived in the capture.
pub open spec fn end_marker_seen(c: CaptureView) -> bool {
    contains_seq(lossy_text(c.raw), hidden(c.end_marker))
}

/// Finishing the capture: echo back on, and the output with its exit code
/// goes into the conversation as the tool result, to be sent to the AI.
pub open spec fn finish_spec(v: RouterView) -> (RouterView, Seq<ActionView>) {
    match v.capture {
        None => (v, Seq::empty()),
        Some(c) => {
            let (out, code) = capture_report(c);
            (
                RouterView {
                    capture: None,
                    conversation: trim_conversation(
                        v.conversation.push(
                            MessageView::Tool {
                                tool_call_id: c.tool_call_id,
                                content: capture_result_text(code, out),
                            },
                        ),
                        v.conversation_limit,
                    ),
                    first_token: true,
                    after_command: true,
                    mode: InputMode::AiStreaming,
                    pending_dispatch: true,
                    ..v
                },
                seq![ActionView::SetEcho(true)],
            )
        },
    }
}

/// The next queued command: run at once with the markers of `id`, or put
/// before the user for confirmation.
pub open spec fn dispatch_spec(v: RouterView, id: Seq<char>) -> (RouterView, Seq<ActionView>) {
    if v.queue.len() == 0 {
        (v, Seq::empty())
    } else {
        let tc = v.queue[0];
        let v1 = RouterView { queue: v.queue.drop_first(), ..v };
        if v1.auto_execute {
            execute_spec(v1, tc.command, tc.id, id)
        } else {
            (
                RouterView {
                    pending: Some(
                        PendingView {
                            command: tc.command,
                            explanation: tc.explanation,
                            tool_call_id: tc.id,
                        },
                    ),
                    mode: InputMode::CommandConfirm,
                    ..v1
                },
                seq![ActionView::ShowOverlay { command: tc.command, explanation: tc.explanation }],
            )
        }
    }
}

/// The capture finishes in this poll: it timed out or its end marker arrived.
pub open spec fn finishes(v: RouterView, timed_out: bool) -> bool {
    v.capture matches Some(c) && (timed_out || end_marker_seen(c))
}

/// A poll can proceed: if it finishes the capture, the output can be cut
/// where the tool result cuts it.
pub open spec fn poll_safe(v: RouterView, timed_out: bool) -> bool {
    finishes(v, timed_out) ==> truncation_ok(capture_report(v.capture->0).0)
}

/// A poll: the capture finishes if it timed out or its end marker arrived;
/// then, with no capture left and a result waiting, the next queued
/// command is dispatched or, with none left, the conversation is sent to
/// the AI. The flag says whether the AI's reports are to be handled next.
pub open spec fn poll_spec(v: RouterView, timed_out: bool, system: MessageView, id: Seq<char>) -> (
    RouterView,
    Seq<ActionView>,
    bool,
) {
    let (v1, a1) = if finishes(v, timed_out) {
        finish_spec(v)
    } else {
        (v, Seq::empty())
    };
    if v1.pending_dispatch && v1.capture is None {
        let v2 = RouterView { pending_dispatch: false, ..v1 };
        if v2.queue.len() > 0 {
            let (v3, a3) = dispatch_spec(v2, id);
            (v3, a1 + a3, false)
        } else if v2.ai_available {
            let conv = trim_by_size_spec(v2.conversation, MAX_CHARS as nat);
            (
                RouterView { conversation: conv, ..v2 },
                a1.push(ActionView::SendChat(seq![system] + conv)),
                true,
            )
        } else {
            (v2, a1, false)
        }
    } else {
        (v1, a1, v1.ai_available)
    }
}

/// The text of an optional field, or nothing.
pub open spec fn or_empty(s: Option<Seq<char>>) -> Seq<char> {
    match s {
        Some(t) => t,
        None => Seq::empty(),
    }
}

/// The string fields `first` and `second` of the JSON text, as
/// `serde_json` reads them: `None` when the text is not JSON; a field that
/// is missing or not a string is `None`.
pub uninterp spec fn json_string_fields(text: Seq<char>, first: Seq<char>, second: Seq<char>) -> Option<
    (Option<Seq<char>>, Option<Seq<char>>),
>;

/// The plain content of the fields read from JSON.
pub open spec fn fields_view(f: Option<(Option<String>, Option<String>)>) -> Option<
    (Option<Seq<char>>, Option<Seq<char>>),
> {
    match f {
        None => None,
        Some((a, b)) => Some(
            (
                match a {
                    Some(s) => Some(s@),
                    None => None,
                },
                match b {
                    Some(s) => Some(s@),
                    None => None,
                },
            ),
        ),
    }
}

/// `serde_json::from_str` into a `Value`, then the string fields `first`
/// and `second` read with `Value::index` and `Value::as_str`. Claimed: the
/// result is a function of the three texts.
#[verifier::external_body]
fn parse_string_fields(text: &str, first: &str, second: &str) -> (r: Option<
    (Option<String>, Option<String>),
>)
    ensures
        fields_view(r) == json_string_fields(text@, first@, second@),
{
    match serde_json::from_str::<serde_json::Value>(text) {
        Ok(v) => Some((v[first].as_str().map(str::to_owned), v[second].as_str().map(str::to_owned))),
        Err(_) => None,
    }
}

/// The queued command for a call with the fields read from its arguments:
/// none when the arguments were not JSON; a missing field is empty.
pub open spec fn queued_from_fields(
    id: Seq<char>,
    name: Seq<char>,
    fields: Option<(Option<Seq<char>>, Option<Seq<char>>)>,
) -> Option<QueuedView> {
    match fields {
        None => None,
        Some((command, explanation)) => Some(
            QueuedView { id, name, command: or_empty(command), explanation: or_empty(explanation) },
        ),
    }
}

/// The queued command for a tool call: only `run_command` calls whose
/// arguments are JSON, with their `command` and `explanation`.
pub open spec fn queued_from_call(c: ToolCallView) -> Option<QueuedView> {
    if c.name == "run_command"@ {
        queued_from_fields(
            c.id,
            c.name,
            json_string_fields(c.arguments, "command"@, "explanation"@),
        )
    } else {
        None
    }
}

/// The queued commands for the calls of a reply, in order.
pub open spec fn queued_from_batch(b: Seq<ToolCallView>) -> Seq<QueuedView>
    decreases b.len(),
{
    if b.len() == 0 {
        Seq::empty()
    } else {
        let rest = queued_from_batch(b.drop_last());
        match queued_from_call(b.last()) {
            Some(q) => rest.push(q),
            None => rest,
        }
    }
}

/// The queued command for a call, from the fields read from its arguments.
pub fn queued_tool_call(id: &str, name: &str, fields: Option<(Option<String>, Option<String>)>) -> (r:
    Option<QueuedToolCall>)
    ensures
        match r {
            Some(q) => queued_from_fields(id@, name@, fields_view(fields)) == Some(q@),
            None => queued_from_fields(id@, name@, fields_view(fields)) is None,
        },
{
    match fields {
        None => None,
        Some((command, explanation)) => Some(
            QueuedToolCall {
                id: id.to_owned(),
                name: name.to_owned(),
                command: match command {
                    Some(c) => c,
                    None => String::new(),
                },
                explanation: match explanation {
                    Some(e) => e,
                    None => String::new(),
                },
            },
        ),
    }
}

/// The queued command for a tool call, as [`queued_from_call`].
pub fn queue_entry(call: &ToolCall) -> (r: Option<QueuedToolCall>)
    ensures
        match r {
            Some(q) => queued_from_call(call@) == Some(q@),
            None => queued_from_call(call@) is None,
        },
{
    if str_eq(call.name.as_str(), "run_command") {
        let fields = parse_string_fields(call.arguments.as_str(), "command", "explanation");
        queued_tool_call(call.id.as_str(), call.name.as_str(), fields)
    } else {
        None
    }
}

/// Handling one report of the AI. Text is shown as it streams, after the
/// reply label on its first piece; tool calls are collected; at the end of
/// a reply the calls go into the conversation and the `run_command` ones are
/// queued and the first dispatched, or else the text goes into the
/// conversation and the prompt returns to the shell; an error is shown,
/// drops the calls and the unanswered requests, and returns to the shell.
pub open spec fn response_spec(v: RouterView, r: ResponseView, id: Seq<char>) -> (
    RouterView,
    Seq<ActionView>,
) {
    match r {
        ResponseView::Token(t) => {
            let pre = if v.first_token {
                (if v.after_command {
                    seq![ActionView::TerminalWrite(CLEAR_COMMAND_LINES@)]
                } else {
                    seq![ActionView::TerminalWrite("\r\n"@)]
                }).push(ActionView::TerminalWrite(REPLY_LABEL@))
            } else {
                Seq::empty()
            };
            (
                RouterView {
                    first_token: false,
                    after_command: if v.first_token {
                        false
                    } else {
                        v.after_command
                    },
                    text: v.text + t,
                    ..v
                },
                pre.push(ActionView::TerminalWrite(token_display(t))),
            )
        },
        ResponseView::ToolCall { id: call_id, name, arguments } => (
            RouterView {
                pending_calls: v.pending_calls.push(ToolCallView { id: call_id, name, arguments }),
                ..v
            },
            Seq::empty(),
        ),
        ResponseView::Done => {
            let pre = if v.after_command {
                seq![ActionView::TerminalWrite(CLEAR_COMMAND_LINES@)]
            } else {
                Seq::empty()
            };
            if v.capture is Some {
                (v, Seq::empty())
            } else if v.pending_calls.len() > 0 {
                let v1 = RouterView {
                    pending_calls: Seq::empty(),
                    after_command: false,
                    conversation: v.conversation.push(
                        MessageView::Assistant { content: None, tool_calls: Some(v.pending_calls) },
                    ),
                    queue: v.queue + queued_from_batch(v.pending_calls),
                    ..v
                };
                let (v2, a2) = dispatch_spec(v1, id);
                (v2, pre + a2)
            } else {
                let conv = if v.text.len() > 0 {
                    trim_conversation(
                        v.conversation.push(
                            MessageView::Assistant { content: Some(v.text), tool_calls: None },
                        ),
                        v.conversation_limit,
                    )
                } else {
                    v.conversation
                };
                let v1 = RouterView {
                    after_command: false,
                    conversation: conv,
                    text: Seq::empty(),
                    ..v
                };
                if v1.mode == InputMode::AiStreaming {
                    (
                        RouterView { mode: InputMode::Shell, ..v1 },
                        pre + seq![
                            ActionView::TerminalWrite("\x1b[0m"@),
                            ActionView::PtyWrite("\n"@),
                        ],
                    )
                } else {
                    (v1, pre)
                }
            }
        },
        ResponseView::Error(e) => (
            RouterView {
                pending_calls: Seq::empty(),
                conversation: without_trailing_orphans(v.conversation),
                mode: InputMode::Shell,
                ..v
            },
            seq![ActionView::TerminalWrite(error_display(e)), ActionView::PtyWrite("\n"@)],
        ),
    }
}

/// Enter on a command waiting for confirmation: it runs with the markers
/// of `id`.
pub open spec fn confirm_enter_spec(v: RouterView, id: Seq<char>) -> (RouterView, Seq<ActionView>) {
    match v.pending {
        None => (v, Seq::empty()),
        Some(p) => {
            let (v1, a1) = execute_spec(
                RouterView { pending: None, ..v },
                p.command,
                p.tool_call_id,
                id,
            );
            (v1, seq![ActionView::HideOverlay] + a1)
        },
    }
}

/// Declining or editing the command waiting for confirmation: the tool
/// result says so, the rest of the calls are dropped, and the prompt
/// returns to the shell; `edit` sends the command to the shell to edit.
pub open spec fn confirm_decline_spec(v: RouterView, edit: bool) -> (RouterView, Seq<ActionView>) {
    match v.pending {
        None => (v, Seq::empty()),
        Some(p) => (
            RouterView {
                pending: None,
                conversation: trim_conversation(
                    v.conversation.push(
                        MessageView::Tool {
                            tool_call_id: p.tool_call_id,
                            content: if edit {
                                EDITED_RESULT@
                            } else {
                                CANCELLED_RESULT@
                            },
                        },
                    ),
                    v.conversation_limit,
                ),
                queue: Seq::empty(),
                pending_calls: Seq::empty(),
                mode: InputMode::Shell,
                ..v
            },
            if edit {
                seq![ActionView::HideOverlay, ActionView::PtyWrite(p.command)]
            } else {
                seq![ActionView::HideOverlay, ActionView::PtyWrite("\n"@)]
            },
        ),
    }
}

/// A marker identifier that stands for any other where the outcome does not
/// depend on one.
pub open spec fn some_marker_id() -> Seq<char> {
    Seq::new(8, |i: int| '0')
}

proof fn lemma_some_marker_id()
    ensures
        is_marker_id(some_marker_id()),
{
}



impl InputRouter {
    /// Runs `command` for the tool call `tool_call_id`, with markers named
    /// by `id`, as [`execute_spec`].
    pub fn execute_command_with_marker(&mut self, command: &str, tool_call_id: &str, id: &str) -> (r:
        Vec<RouterAction>)
        ensures
            old(self).wf() ==> final(self).wf(),
            (final(self)@, actions_view(r@)) == execute_spec(old(self)@, command@, tool_call_id@, id@),
    {
        let mut acts: Vec<RouterAction> = Vec::new();
        let mut display = String::new();
        display.push_str("\r\n\x1b[1;33m$ ");
        display.push_str(command);
        display.push_str("\x1b[0m");
        push_action(&mut acts, RouterAction::TerminalWrite(display));
        let path = script_path_text(id);
        push_action(
            &mut acts,
            RouterAction::WriteFile { path: path.clone(), contents: command_script_text(command, id) },
        );
        self.command_capture = Some(
            CommandCapture {
                start_marker: start_marker_text(id),
                end_marker: end_marker_text(id),
                tool_call_id: tool_call_id.to_owned(),
                raw_output: Vec::new(),
            },
        );
        push_action(&mut acts, RouterAction::StartCaptureTimer);
        push_action(&mut acts, RouterAction::SetEcho(false));
        let mut source = String::new();
        source.push_str(" . ");
        source.push_str(path.as_str());
        source.push_str("\n");
        push_action(&mut acts, RouterAction::PtyWrite(source));
        self.mode = InputMode::AiStreaming;
        proof {
            let e = execute_spec(old(self)@, command@, tool_call_id@, id@);
            assert(self@.capture->0.raw =~= Seq::<u8>::empty());
            assert(self@ =~= e.0);
            assert(actions_view(acts@) =~= e.1);
        }
        acts
    }

    /// Runs `command` for the tool call `tool_call_id` with fresh markers.
    fn execute_command(&mut self, command: &str, tool_call_id: &str) -> (r: Vec<RouterAction>)
        ensures
            old(self).wf() ==> final(self).wf(),
            exists|id: Seq<char>|
                #[trigger] is_marker_id(id) && (final(self)@, actions_view(r@)) == execute_spec(
                    old(self)@,
                    command@,
                    tool_call_id@,
                    id,
                ),
    {
        let id = new_marker_id();
        let r = self.execute_command_with_marker(command, tool_call_id, id.as_str());
        assert(is_marker_id(id@));
        r
    }

    /// Takes the next queued command: runs it, or asks for confirmation.
    fn dispatch_next_tool_call(&mut self) -> (r: Vec<RouterAction>)
        ensures
            old(self).wf() ==> final(self).wf(),
            exists|id: Seq<char>|
                #[trigger] is_marker_id(id) && (final(self)@, actions_view(r@)) == dispatch_spec(
                    old(self)@,
                    id,
                ),
    {
        if self.tool_call_queue.len() == 0 {
            let r: Vec<RouterAction> = Vec::new();
            proof {
                lemma_some_marker_id();
                assert(actions_view(r@) =~= Seq::<ActionView>::empty());
                assert(is_marker_id(some_marker_id()) && (self@, actions_view(r@)) == dispatch_spec(
                    old(self)@,
                    some_marker_id(),
                ));
            }
            return r;
        }
        let ghost q0 = old(self)@.queue;
        let tc = self.tool_call_queue.remove(0);
        assert(tc@ == q0[0]);
        assert(self@.queue =~= q0.drop_first());
        let ghost mid = self@;
        assert(mid == RouterView { queue: q0.drop_first(), ..old(self)@ });
        if self.auto_execute {
            let r = self.execute_command(tc.command.as_str(), tc.id.as_str());
            proof {
                let id = choose|id: Seq<char>|
                    #[trigger] is_marker_id(id) && (self@, actions_view(r@)) == execute_spec(
                        mid,
                        tc.command@,
                        tc.id@,
                        id,
                    );
                assert(is_marker_id(id) && (self@, actions_view(r@)) == dispatch_spec(
                    old(self)@,
                    id,
                ));
            }
            r
        } else {
            let mut r: Vec<RouterAction> = Vec::new();
            push_action(
                &mut r,
                RouterAction::ShowOverlay {
                    command: tc.command.clone(),
                    explanation: tc.explanation.clone(),
                },
            );
            self.pending_command = Some(
                PendingCommand {
                    command: tc.command,
                    explanation: tc.explanation,
                    tool_call_id: tc.id,
                },
            );
            self.mode = InputMode::CommandConfirm;
            proof {
                lemma_some_marker_id();
                let d = dispatch_spec(old(self)@, some_marker_id());
                assert(self@ =~= d.0);
                assert(actions_view(r@) =~= d.1);
            }
            r
        }
    }

    /// Whether this poll finishes the capture, and with which tool result:
    /// `None` when the output cannot be cut where the result cuts it.
    fn capture_outcome(&self, capture_timed_out: bool) -> (r: Option<Option<String>>)
        ensures
            r is None <==> !poll_safe(self@, capture_timed_out),
            r == Some(None::<String>) ==> !finishes(self@, capture_timed_out),
            match r {
                Some(Some(s)) => finishes(self@, capture_timed_out) && s@ == capture_result_text(
                    capture_report(self@.capture->0).1,
                    capture_report(self@.capture->0).0,
                ),
                _ => true,
            },
    {
        match &self.command_capture {
            None => Some(None),
            Some(c) => {
                let text = captured_text(c.raw_output.as_slice());
                let seen = if capture_timed_out {
                    true
                } else {
                    let he = chars_of(hidden_marker(c.end_marker.as_str()).as_str());
                    find_first_exec(&text, &he).is_some()
                };
                if seen {
                    let (out, code) = parse_capture(
                        &text,
                        c.start_marker.as_str(),
                        c.end_marker.as_str(),
                    );
                    if !truncation_fits(out.as_str()) {
                        None
                    } else {
                        Some(Some(capture_result(code, out.as_str())))
                    }
                } else {
                    Some(None)
                }
            },
        }
    }

    /// Ends the capture with the tool result `result`.
    fn finish_command_capture(&mut self, result: String) -> (r: Vec<RouterAction>)
        requires
            old(self).wf(),
            old(self)@.capture is Some,
            result@ == capture_result_text(
                capture_report(old(self)@.capture->0).1,
                capture_report(old(self)@.capture->0).0,
            ),
        ensures
            final(self).wf(),
            (final(self)@, actions_view(r@)) == finish_spec(old(self)@),
    {
        let mut cap: Option<CommandCapture> = None;
        std::mem::swap(&mut cap, &mut self.command_capture);
        let mut acts: Vec<RouterAction> = Vec::new();
        push_action(&mut acts, RouterAction::SetEcho(true));
        match cap {
            Some(c) => {
                self.conversation.push_tool_result(c.tool_call_id.as_str(), result.as_str());
            },
            None => {},
        }
        self.ai_first_token = true;
        self.ai_after_command = true;
        self.mode = InputMode::AiStreaming;
        self.has_pending_dispatch = true;
        proof {
            let f = finish_spec(old(self)@);
            assert(self@ =~= f.0);
            assert(actions_view(acts@) =~= f.1);
        }
        acts
    }

    /// One poll, as [`poll_spec`]. `capture_timed_out` tells whether the
    /// running command has been captured for longer than its time limit.
    /// Returns `None`, changing nothing, when the capture would finish with
    /// an output that cannot be cut where the tool result cuts it.
    pub fn poll_ai_responses(&mut self, capture_timed_out: bool, env: &PromptEnv) -> (r: Option<
        PollOutcome,
    >)
        requires
            old(self).wf(),
        ensures
            final(self).wf(),
            r is None <==> !poll_safe(old(self)@, capture_timed_out),
            r is None ==> final(self)@ == old(self)@,
            match r {
                Some(o) => exists|id: Seq<char>|
                    #[trigger] is_marker_id(id) && (final(self)@, actions_view(o.actions@), o.drain)
                        == poll_spec(old(self)@, capture_timed_out, system_view(*env), id),
                None => true,
            },
    {
        let outcome = self.capture_outcome(capture_timed_out);
        let mut acts: Vec<RouterAction> = Vec::new();
        match outcome {
            None => {
                return None;
            },
            Some(Some(result)) => {
                acts = self.finish_command_capture(result);
            },
            Some(None) => {},
        }
        let ghost v1 = self@;
        let ghost a1 = actions_view(acts@);
        assert(a1 =~= (if finishes(old(self)@, capture_timed_out) {
            finish_spec(old(self)@)
        } else {
            (old(self)@, Seq::empty())
        }).1);
        assert(v1 == (if finishes(old(self)@, capture_timed_out) {
            finish_spec(old(self)@)
        } else {
            (old(self)@, Seq::empty())
        }).0);
        if self.has_pending_dispatch && self.command_capture.is_none() {
            self.has_pending_dispatch = false;
            let ghost v2 = self@;
            assert(v2 == RouterView { pending_dispatch: false, ..v1 });
            if self.tool_call_queue.len() > 0 {
                let more = self.dispatch_next_tool_call();
                append_actions(&mut acts, more);
                proof {
                    let id = choose|id: Seq<char>|
                        #[trigger] is_marker_id(id) && (self@, actions_view(more@)) == dispatch_spec(
                            v2,
                            id,
                        );
                    assert(is_marker_id(id) && (self@, actions_view(acts@), false) == poll_spec(
                        old(self)@,
                        capture_timed_out,
                        system_view(*env),
                        id,
                    ));
                }
                return Some(PollOutcome { actions: acts, drain: false });
            }
            if self.ai_available {
                let system = ContextBuilder::build_system_message(
                    env.os.as_str(),
                    env.arch.as_str(),
                    env.shell.as_str(),
                    env.cwd.as_str(),
                );
                let messages = self.conversation.build_messages(system);
                push_action(&mut acts, RouterAction::SendChat(messages));
                proof {
                    lemma_some_marker_id();
                    let p = poll_spec(old(self)@, capture_timed_out, system_view(*env), some_marker_id());
                    assert(self@ =~= p.0);
                    assert(actions_view(acts@) =~= p.1);
                }
                return Some(PollOutcome { actions: acts, drain: true });
            }
            proof {
                lemma_some_marker_id();
            }
            return Some(PollOutcome { actions: acts, drain: false });
        }
        proof {
            lemma_some_marker_id();
        }
        Some(PollOutcome { actions: acts, drain: self.ai_available })
    }

    /// Submits the AI prompt, first step, as [`submit_spec`]: shows nothing
    /// itself; an `Echo` is to be shown in the terminal before
    /// [`InputRouter::complete_ai_prompt_submit`] is called.
    pub fn handle_ai_prompt_submit(&mut self) -> (r: SubmitStep)
        ensures
            old(self).wf() ==> final(self).wf(),
            (final(self)@, r@) == submit_spec(old(self)@),
    {
        if self.mode != InputMode::AiPrompt || self.ai_input_buffer.as_str().is_empty() {
            return SubmitStep::Ignored;
        }
        let query = self.ai_input_buffer.clone();
        let t = trim_string(query.as_str());
        if str_eq(t.as_str(), "/clear") {
            self.conversation.clear();
            self.ai_input_buffer.clear();
            self.history_index = None;
            self.mode = InputMode::Shell;
            proof {
                assert(self@ =~= submit_spec(old(self)@).0);
            }
            return SubmitStep::Cleared;
        }
        self.push_unified_history(query.as_str());
        self.history_index = None;
        let mut display = String::new();
        display.push_str("\r\x1b[2K\x1b[1;35m\u{276f} ");
        push_replacing_newlines(&mut display, query.as_str(), "\r\n  ");
        display.push_str("\x1b[0m");
        proof {
            assert(self@ =~= submit_spec(old(self)@).0);
        }
        SubmitStep::Echo(display)
    }

    /// Submits the AI prompt, second step, as [`complete_submit_spec`]:
    /// `buffer_text` is the terminal's text after the echo.
    pub fn complete_ai_prompt_submit(&mut self, buffer_text: &str, env: &PromptEnv) -> (r: Vec<
        RouterAction,
    >)
        requires
            old(self).wf(),
        ensures
            final(self).wf(),
            (final(self)@, actions_view(r@)) == complete_submit_spec(
                old(self)@,
                buffer_text@,
                system_view(*env),
            ),
    {
        let mut acts: Vec<RouterAction> = Vec::new();
        if self.mode != InputMode::AiPrompt || self.ai_input_buffer.as_str().is_empty() {
            assert(actions_view(acts@) =~= Seq::<ActionView>::empty());
            return acts;
        }
        let system = ContextBuilder::build_system_message(
            env.os.as_str(),
            env.arch.as_str(),
            env.shell.as_str(),
            env.cwd.as_str(),
        );
        let user = self.context_builder.build_user_message(
            self.ai_input_buffer.as_str(),
            buffer_text,
            self.command_history.as_slice(),
        );
        self.conversation.push_message(user);
        let messages = self.conversation.build_messages(system);
        if self.ai_available {
            push_action(&mut acts, RouterAction::SendChat(messages));
        }
        self.ai_input_buffer.clear();
        self.ai_text_buffer.clear();
        self.ai_first_token = true;
        self.mode = InputMode::AiStreaming;
        proof {
            let c = complete_submit_spec(old(self)@, buffer_text@, system_view(*env));
            assert(self@ =~= c.0);
            assert(actions_view(acts@) =~= c.1);
        }
        acts
    }
}



proof fn lemma_queued_from_batch_step(b: Seq<ToolCallView>, i: int)
    requires
        0 <= i < b.len(),
    ensures
        queued_from_batch(b.subrange(0, i + 1)) == match queued_from_call(b[i]) {
            Some(q) => queued_from_batch(b.subrange(0, i)).push(q),
            None => queued_from_batch(b.subrange(0, i)),
        },
{
    let p = b.subrange(0, i + 1);
    assert(p.drop_last() =~= b.subrange(0, i));
    assert(p.last() == b[i]);
}

/// The queued commands for a batch of tool calls, in order.
fn queue_entries(batch: &Vec<ToolCall>) -> (r: Vec<QueuedToolCall>)
    ensures
        queue_view(r@) == queued_from_batch(tool_calls_view(batch@)),
{
    let ghost b = tool_calls_view(batch@);
    let mut r: Vec<QueuedToolCall> = Vec::new();
    let mut i: usize = 0;
    while i < batch.len()
        invariant
            i <= batch@.len(),
            b == tool_calls_view(batch@),
            queue_view(r@) == queued_from_batch(b.subrange(0, i as int)),
        decreases batch@.len() - i,
    {
        proof {
            lemma_queued_from_batch_step(b, i as int);
        }
        assert(b[i as int] == batch@[i as int]@);
        match queue_entry(&batch[i]) {
            Some(q) => {
                let ghost qv = q@;
                let ghost before = r@;
                r.push(q);
                assert(queue_view(r@) =~= queue_view(before).push(qv));
            },
            None => {},
        }
        i += 1;
    }
    assert(b.subrange(0, b.len() as int) == b);
    r
}

impl InputRouter {
    fn on_token(&mut self, token: String) -> (r: Vec<RouterAction>)
        ensures
            old(self).wf() ==> final(self).wf(),
            (final(self)@, actions_view(r@)) == response_spec(
                old(self)@,
                ResponseView::Token(token@),
                some_marker_id(),
            ),
    {
        let mut acts: Vec<RouterAction> = Vec::new();
        if self.ai_first_token {
            if self.ai_after_command {
                push_action(&mut acts, RouterAction::TerminalWrite(CLEAR_COMMAND_LINES.to_owned()));
                self.ai_after_command = false;
            } else {
                push_action(&mut acts, RouterAction::TerminalWrite("\r\n".to_owned()));
            }
            push_action(&mut acts, RouterAction::TerminalWrite(REPLY_LABEL.to_owned()));
            self.ai_first_token = false;
        }
        self.ai_text_buffer.push_str(token.as_str());
        let mut colored = String::new();
        colored.push_str("\x1b[36m");
        push_replacing_newlines(&mut colored, token.as_str(), "\r\n");
        colored.push_str("\x1b[0m");
        push_action(&mut acts, RouterAction::TerminalWrite(colored));
        proof {
            let s = response_spec(old(self)@, ResponseView::Token(token@), some_marker_id());
            assert(self@ =~= s.0);
            assert(actions_view(acts@) =~= s.1);
        }
        acts
    }

    fn on_error(&mut self, err: String) -> (r: Vec<RouterAction>)
        ensures
            old(self).wf() ==> final(self).wf(),
            (final(self)@, actions_view(r@)) == response_spec(
                old(self)@,
                ResponseView::Error(err@),
                some_marker_id(),
            ),
    {
        let mut acts: Vec<RouterAction> = Vec::new();
        self.pending_tool_calls.clear();
        let mut msg = String::new();
        msg.push_str("\r\n\x1b[31mTAI Error: ");
        msg.push_str(err.as_str());
        msg.push_str("\x1b[0m\r\n");
        push_action(&mut acts, RouterAction::TerminalWrite(msg));
        self.conversation.remove_trailing_orphans();
        push_action(&mut acts, RouterAction::PtyWrite("\n".to_owned()));
        self.mode = InputMode::Shell;
        proof {
            let s = response_spec(old(self)@, ResponseView::Error(err@), some_marker_id());
            assert(self@ =~= s.0);
            assert(actions_view(acts@) =~= s.1);
        }
        acts
    }

    fn on_done(&mut self) -> (r: Vec<RouterAction>)
        requires
            old(self).wf(),
        ensures
            final(self).wf(),
            exists|id: Seq<char>|
                #[trigger] is_marker_id(id) && (final(self)@, actions_view(r@)) == response_spec(
                    old(self)@,
                    ResponseView::Done,
                    id,
                ),
    {
        let mut acts: Vec<RouterAction> = Vec::new();
        proof {
            lemma_some_marker_id();
        }
        if self.command_capture.is_some() {
            assert(actions_view(acts@) =~= Seq::<ActionView>::empty());
            return acts;
        }
        if self.pending_tool_calls.len() > 0 {
            let mut batch: Vec<ToolCall> = Vec::new();
            std::mem::swap(&mut batch, &mut self.pending_tool_calls);
            if self.ai_after_command {
                push_action(&mut acts, RouterAction::TerminalWrite(CLEAR_COMMAND_LINES.to_owned()));
                self.ai_after_command = false;
            }
            let calls = crate::ai::conversation::duplicate_tool_calls(&batch);
            self.conversation.push_assistant_tool_call(calls);
            let mut entries = queue_entries(&batch);
            let ghost q0 = self@.queue;
            self.tool_call_queue.append(&mut entries);
            assert(self@.queue =~= q0 + queued_from_batch(tool_calls_view(batch@)));
            let ghost v1 = self@;
            let ghost a1 = actions_view(acts@);
            let more = self.dispatch_next_tool_call();
            append_actions(&mut acts, more);
            proof {
                assert(self@.pending_calls =~= Seq::<ToolCallView>::empty()) by {
                    assert(v1.pending_calls =~= Seq::<ToolCallView>::empty());
                }
                let id = choose|id: Seq<char>|
                    #[trigger] is_marker_id(id) && (self@, actions_view(more@)) == dispatch_spec(
                        v1,
                        id,
                    );
                let s = response_spec(old(self)@, ResponseView::Done, id);
                assert(v1 =~= RouterView {
                    pending_calls: Seq::empty(),
                    after_command: false,
                    conversation: old(self)@.conversation.push(
                        MessageView::Assistant {
                            content: None,
                            tool_calls: Some(old(self)@.pending_calls),
                        },
                    ),
                    queue: old(self)@.queue + queued_from_batch(old(self)@.pending_calls),
                    ..old(self)@
                });
                assert(is_marker_id(id) && (self@, actions_view(acts@)) == s);
            }
            return acts;
        }
        if self.ai_after_command {
            push_action(&mut acts, RouterAction::TerminalWrite(CLEAR_COMMAND_LINES.to_owned()));
            self.ai_after_command = false;
        }
        if !self.ai_text_buffer.as_str().is_empty() {
            let text = self.ai_text_buffer.clone();
            self.conversation.push_assistant(text.as_str());
            self.ai_text_buffer.clear();
        }
        assert(self@.text =~= Seq::<char>::empty());
        if self.mode == InputMode::AiStreaming {
            push_action(&mut acts, RouterAction::TerminalWrite("\x1b[0m".to_owned()));
            push_action(&mut acts, RouterAction::PtyWrite("\n".to_owned()));
            self.mode = InputMode::Shell;
        }
        proof {
            let s = response_spec(old(self)@, ResponseView::Done, some_marker_id());
            assert(self@ =~= s.0);
            assert(actions_view(acts@) =~= s.1);
        }
        acts
    }

    /// Handles one report of the AI, as [`response_spec`].
    pub fn handle_ai_response(&mut self, response: AiResponse) -> (r: Vec<RouterAction>)
        requires
            old(self).wf(),
        ensures
            final(self).wf(),
            exists|id: Seq<char>|
                #[trigger] is_marker_id(id) && (final(self)@, actions_view(r@)) == response_spec(
                    old(self)@,
                    response@,
                    id,
                ),
    {
        proof {
            lemma_some_marker_id();
        }
        match response {
            AiResponse::Token(token) => self.on_token(token),
            AiResponse::ToolCall { id, name, arguments } => {
                let ghost call = ToolCallView { id: id@, name: name@, arguments: arguments@ };
                let ghost before = self.pending_tool_calls@;
                self.pending_tool_calls.push(ToolCall { id, name, arguments });
                let r: Vec<RouterAction> = Vec::new();
                proof {
                    assert(tool_calls_view(self.pending_tool_calls@) =~= tool_calls_view(before).push(
                        call,
                    ));
                    let s = response_spec(old(self)@, response@, some_marker_id());
                    assert(self@ =~= s.0);
                    assert(actions_view(r@) =~= s.1);
                }
                r
            },
            AiResponse::Done => self.on_done(),
            AiResponse::Error(err) => self.on_error(err),
        }
    }

    /// Enter on the command waiting for confirmation: it runs, as
    /// [`confirm_enter_spec`].
    pub fn handle_command_confirm_enter(&mut self) -> (r: Vec<RouterAction>)
        ensures
            old(self).wf() ==> final(self).wf(),
            exists|id: Seq<char>|
                #[trigger] is_marker_id(id) && (final(self)@, actions_view(r@))
                    == confirm_enter_spec(old(self)@, id),
    {
        proof {
            lemma_some_marker_id();
        }
        let mut pending: Option<PendingCommand> = None;
        std::mem::swap(&mut pending, &mut self.pending_command);
        match pending {
            Some(p) => {
                let mut acts: Vec<RouterAction> = Vec::new();
                push_action(&mut acts, RouterAction::HideOverlay);
                let ghost v1 = self@;
                let more = self.execute_command(p.command.as_str(), p.tool_call_id.as_str());
                append_actions(&mut acts, more);
                proof {
                    let id = choose|id: Seq<char>|
                        #[trigger] is_marker_id(id) && (self@, actions_view(more@)) == execute_spec(
                            v1,
                            p.command@,
                            p.tool_call_id@,
                            id,
                        );
                    assert(v1 == RouterView { pending: None, ..old(self)@ });
                    assert(actions_view(acts@) =~= seq![ActionView::HideOverlay] + actions_view(
                        more@,
                    ));
                    assert(is_marker_id(id) && (self@, actions_view(acts@)) == confirm_enter_spec(
                        old(self)@,
                        id,
                    ));
                }
                acts
            },
            None => {
                let r: Vec<RouterAction> = Vec::new();
                assert(actions_view(r@) =~= Seq::<ActionView>::empty());
                r
            },
        }
    }

    fn decline_pending(&mut self, edit: bool) -> (r: Vec<RouterAction>)
        requires
            old(self).wf(),
        ensures
            final(self).wf(),
            (final(self)@, actions_view(r@)) == confirm_decline_spec(old(self)@, edit),
    {
        let mut pending: Option<PendingCommand> = None;
        std::mem::swap(&mut pending, &mut self.pending_command);
        let mut acts: Vec<RouterAction> = Vec::new();
        match pending {
            Some(p) => {
                push_action(&mut acts, RouterAction::HideOverlay);
                if edit {
                    push_action(&mut acts, RouterAction::PtyWrite(p.command.clone()));
                    self.conversation.push_tool_result(p.tool_call_id.as_str(), EDITED_RESULT);
                } else {
                    self.conversation.push_tool_result(p.tool_call_id.as_str(), CANCELLED_RESULT);
                }
                self.tool_call_queue.clear();
                self.pending_tool_calls.clear();
                if !edit {
                    push_action(&mut acts, RouterAction::PtyWrite("\n".to_owned()));
                }
                self.mode = InputMode::Shell;
                proof {
                    let s = confirm_decline_spec(old(self)@, edit);
                    assert(self@ =~= s.0);
                    assert(actions_view(acts@) =~= s.1);
                }
            },
            None => {
                assert(actions_view(acts@) =~= Seq::<ActionView>::empty());
            },
        }
        acts
    }

    /// Declines the command waiting for confirmation, as
    /// [`confirm_decline_spec`] without editing.
    pub fn handle_command_confirm_cancel(&mut self) -> (r: Vec<RouterAction>)
        requires
            old(self).wf(),
        ensures
            final(self).wf(),
            (final(self)@, actions_view(r@)) == confirm_decline_spec(old(self)@, false),
    {
        self.decline_pending(false)
    }

    /// Takes the command waiting for confirmation to the shell to edit, as
    /// [`confirm_decline_spec`] with editing.
    pub fn handle_command_confirm_edit(&mut self) -> (r: Vec<RouterAction>)
        requires
            old(self).wf(),
        ensures
            final(self).wf(),
            (final(self)@, actions_view(r@)) == confirm_decline_spec(old(self)@, true),
    {
        self.decline_pending(true)
    }
}



// ---------------------------------------------------------------------------
// Laws of the router.
// ---------------------------------------------------------------------------

/// Recording an entry never lets the history grow past [`HISTORY_LIMIT`],
/// and a non-blank entry ends up, trimmed, as the newest one.
pub proof fn lemma_record_history(history: Seq<Seq<char>>, entry: Seq<char>)
    requires
        history.len() <= HISTORY_LIMIT,
    ensures
        record_history(history, entry).len() <= HISTORY_LIMIT,
        trim_spec(entry).len() > 0 ==> record_history(history, entry).last() == trim_spec(entry),
        trim_spec(entry).len() == 0 ==> record_history(history, entry) == history,
{
}

/// Recording the entry that is already the newest changes nothing: the
/// history holds no entry twice in a row because of a repeat.
pub proof fn lemma_record_history_repeat(history: Seq<Seq<char>>, entry: Seq<char>)
    requires
        history.len() <= HISTORY_LIMIT,
        history.len() > 0,
        history.last() == trim_spec(entry),
    ensures
        record_history(history, entry) == history,
{
}

/// Up, then Down, from the prompt while not browsing, brings back what was
/// typed.
pub proof fn lemma_history_up_down(v: RouterView)
    requires
        v.mode == InputMode::AiPrompt,
        0 < v.history.len() <= usize::MAX,
        v.history_index is None,
    ensures
        history_down_spec(history_up_spec(v)).input == v.input,
        history_down_spec(history_up_spec(v)).history_index is None,
        history_down_spec(history_up_spec(v)).mode == InputMode::AiPrompt,
{
}

/// The state after `k` presses of Up in the prompt.
pub open spec fn history_ups(v: RouterView, k: nat) -> RouterView
    decreases k,
{
    if k == 0 {
        v
    } else {
        history_up_spec(history_ups(v, (k - 1) as nat))
    }
}

/// The state after `k` presses of Down in the prompt.
pub open spec fn history_downs(v: RouterView, k: nat) -> RouterView
    decreases k,
{
    if k == 0 {
        v
    } else {
        history_down_spec(history_downs(v, (k - 1) as nat))
    }
}

/// From the prompt, not browsing, `k` presses of Up show the `k`-th newest
/// entry of the history, stopping at the oldest; the history is left as it
/// was and what was typed is kept aside.
pub proof fn lemma_history_ups(v: RouterView, k: nat)
    requires
        v.mode == InputMode::AiPrompt,
        v.history_index is None,
        0 < v.history.len() <= usize::MAX,
        k >= 1,
    ensures
        history_ups(v, k).input == v.history[v.history.len() - (if k < v.history.len() { k as int } else { v.history.len() as int })],
        history_ups(v, k).history_index == Some((v.history.len() - (if k < v.history.len() { k as int } else { v.history.len() as int })) as usize),
        history_ups(v, k).history == v.history,
        history_ups(v, k).mode == InputMode::AiPrompt,
        history_ups(v, k).draft == v.input,
    decreases k,
{
    let n = v.history.len() as int;
    if k > 1 {
        lemma_history_ups(v, (k - 1) as nat);
        let prev = history_ups(v, (k - 1) as nat);
        assert(history_ups(v, k) == history_up_spec(prev));
        if k - 1 < n {
            assert(prev.history_index == Some((n - (k - 1)) as usize));
        } else {
            assert(prev.history_index == Some(0usize));
        }
    } else {
        assert(history_ups(v, 0) == v);
        assert(history_ups(v, 1) == history_up_spec(v));
    }
}

/// `j` presses of Down after `k` presses of Up, from the prompt while not
/// browsing, with `j < k` and `k` at most the length of the history, show
/// the entry `k - j` from the newest.
proof fn lemma_history_ups_downs(v: RouterView, k: nat, j: nat)
    requires
        v.mode == InputMode::AiPrompt,
        v.history_index is None,
        v.history.len() <= usize::MAX,
        1 <= k <= v.history.len(),
        j < k,
    ensures
        history_downs(history_ups(v, k), j).history_index == Some((v.history.len() - k + j) as usize),
        history_downs(history_ups(v, k), j).input == v.history[v.history.len() - k + j],
        history_downs(history_ups(v, k), j).history == v.history,
        history_downs(history_ups(v, k), j).mode == InputMode::AiPrompt,
        history_downs(history_ups(v, k), j).draft == v.input,
    decreases j,
{
    lemma_history_ups(v, k);
    if j > 0 {
        lemma_history_ups_downs(v, k, (j - 1) as nat);
    }
}

/// From the prompt while not browsing, `k` presses of Up followed by `k`
/// presses of Down, for `k` up to the length of the history, bring back
/// what was typed and end the browsing; one more Down changes nothing.
pub proof fn lemma_history_ups_then_downs(v: RouterView, k: nat)
    requires
        v.mode == InputMode::AiPrompt,
        v.history_index is None,
        v.history.len() <= usize::MAX,
        1 <= k <= v.history.len(),
    ensures
        history_downs(history_ups(v, k), k).input == v.input,
        history_downs(history_ups(v, k), k).history_index is None,
        history_downs(history_ups(v, k), k).history == v.history,
        history_downs(history_ups(v, k), (k + 1) as nat).input == v.input,
{
    lemma_history_ups_downs(v, k, (k - 1) as nat);
}

/// What the histories always are: the history of prompts and commands
/// holds at most [`HISTORY_LIMIT`] entries, each non-blank and trimmed,
/// with no entry twice in a row; at most [`COMMAND_LIMIT`] commands are
/// kept.
pub open spec fn histories_ok(v: RouterView) -> bool {
    &&& history_ok(v.history)
    &&& v.commands.len() <= COMMAND_LIMIT
}

/// The history part of [`histories_ok`].
pub open spec fn history_ok(h: Seq<Seq<char>>) -> bool {
    &&& h.len() <= HISTORY_LIMIT
    &&& forall|i: int| 0 <= i < h.len() ==> (#[trigger] h[i]).len() > 0 && trim_spec(h[i]) == h[i]
    &&& forall|i: int| 0 < i < h.len() ==> #[trigger] h[i] != h[i - 1]
}

/// Recording an entry keeps the history as [`history_ok`] says.
pub proof fn lemma_record_history_ok(h: Seq<Seq<char>>, entry: Seq<char>)
    requires
        history_ok(h),
    ensures
        history_ok(record_history(h, entry)),
{
    let t = trim_spec(entry);
    lemma_trim_idempotent(entry);
    if t.len() > 0 && (h.len() == 0 || h.last() != t) {
        let p = h.push(t);
        assert forall|i: int| 0 <= i < p.len() implies (#[trigger] p[i]).len() > 0 && trim_spec(p[i])
            == p[i] by {
            if i < h.len() {
                assert(p[i] == h[i]);
            }
        }
        assert forall|i: int| 0 < i < p.len() implies #[trigger] p[i] != p[i - 1] by {
            if i < h.len() {
                assert(p[i] == h[i]);
                assert(p[i - 1] == h[i - 1]);
            } else {
                assert(p[i - 1] == h.last());
            }
        }
        if p.len() > HISTORY_LIMIT {
            let d = p.drop_first();
            assert forall|i: int| 0 <= i < d.len() implies (#[trigger] d[i]).len() > 0 && trim_spec(
                d[i],
            ) == d[i] by {
                assert(d[i] == p[i + 1]);
            }
            assert forall|i: int| 0 < i < d.len() implies #[trigger] d[i] != d[i - 1] by {
                assert(d[i] == p[i + 1]);
                assert(d[i - 1] == p[i]);
            }
        }
    }
}

/// A new router's histories are as [`histories_ok`] says.
pub proof fn lemma_new_histories_ok(v: RouterView)
    requires
        v.history.len() == 0,
        v.commands.len() == 0,
    ensures
        histories_ok(v),
{
}

/// Every key the shell sees keeps the histories as [`histories_ok`] says.
pub proof fn lemma_shell_key_keeps_histories(v: RouterView, c: char)
    requires
        histories_ok(v),
    ensures
        histories_ok(track_shell_char_spec(v, c)),
{
    lemma_record_history_ok(v.history, v.line);
}

/// One step of the router as far as its histories go: the shell sees a
/// key, the prompt is submitted, or any other call, which leaves both
/// histories as they were (every method but `restore_history` is one of
/// these, by its contract).
pub open spec fn history_step(a: RouterView, b: RouterView) -> bool {
    ||| exists|c: char| b == #[trigger] track_shell_char_spec(a, c)
    ||| b == submit_spec(a).0
    ||| (b.history == a.history && b.commands == a.commands)
}

/// From a new router's empty histories, every state reached by steps of
/// [`history_step`] has its histories as [`histories_ok`] says.
pub proof fn lemma_reachable_histories_ok(states: Seq<RouterView>)
    requires
        states.len() > 0,
        states[0].history.len() == 0,
        states[0].commands.len() == 0,
        forall|i: int| 0 <= i < states.len() - 1 ==> history_step(#[trigger] states[i], states[i + 1]),
    ensures
        forall|i: int| 0 <= i < states.len() ==> histories_ok(#[trigger] states[i]),
    decreases states.len(),
{
    if states.len() > 1 {
        let init = states.drop_last();
        assert forall|i: int| 0 <= i < init.len() - 1 implies history_step(#[trigger] init[i], init[i + 1]) by {
            assert(init[i] == states[i]);
            assert(init[i + 1] == states[i + 1]);
            assert(history_step(states[i], states[i + 1]));
        }
        lemma_reachable_histories_ok(init);
        let k = states.len() - 1;
        assert(init[k - 1] == states[k - 1]);
        assert(histories_ok(states[k - 1]));
        assert(history_step(states[k - 1], states[k]));
        if exists|c: char| states[k] == #[trigger] track_shell_char_spec(states[k - 1], c) {
            let c = choose|c: char| states[k] == #[trigger] track_shell_char_spec(states[k - 1], c);
            lemma_shell_key_keeps_histories(states[k - 1], c);
        } else if states[k] == submit_spec(states[k - 1]).0 {
            lemma_submit_keeps_histories(states[k - 1]);
        }
        assert forall|i: int| 0 <= i < states.len() implies histories_ok(#[trigger] states[i]) by {
            if i < k {
                assert(init[i] == states[i]);
            }
        }
    }
}

/// Submitting the prompt keeps the histories as [`histories_ok`] says.
pub proof fn lemma_submit_keeps_histories(v: RouterView)
    requires
        histories_ok(v),
    ensures
        histories_ok(submit_spec(v).0),
{
    lemma_record_history_ok(v.history, v.input);
}

/// Switching the AI prompt on and off again returns to the shell with an
/// empty prompt and leaves the conversation as it was.
pub proof fn lemma_toggle_twice(v: RouterView)
    requires
        v.mode == InputMode::Shell,
        v.ai_available,
    ensures
        toggle_ai_mode_spec(toggle_ai_mode_spec(v)).mode == InputMode::Shell,
        toggle_ai_mode_spec(toggle_ai_mode_spec(v)).input == Seq::<char>::empty(),
        toggle_ai_mode_spec(toggle_ai_mode_spec(v)).conversation == v.conversation,
        toggle_ai_mode_spec(toggle_ai_mode_spec(v)).history == v.history,
{
}

/// The state after the shell sees each of `keys` in turn.
pub open spec fn shell_keys_spec(v: RouterView, keys: Seq<char>) -> RouterView
    decreases keys.len(),
{
    if keys.len() == 0 {
        v
    } else {
        track_shell_char_spec(shell_keys_spec(v, keys.drop_last()), keys.last())
    }
}

/// Typing printable characters in the shell extends its line by them and
/// changes nothing else.
proof fn lemma_typing_extends_line(v: RouterView, keys: Seq<char>)
    requires
        v.mode == InputMode::Shell,
        forall|i: int| 0 <= i < keys.len() ==> is_ascii_graphic(#[trigger] keys[i]) || keys[i] == ' ',
    ensures
        shell_keys_spec(v, keys) == (RouterView { line: v.line + keys, ..v }),
    decreases keys.len(),
{
    if keys.len() == 0 {
        assert(v.line + keys =~= v.line);
    } else {
        let init = keys.drop_last();
        assert forall|i: int| 0 <= i < init.len() implies is_ascii_graphic(#[trigger] init[i]) || init[i]
            == ' ' by {
            assert(init[i] == keys[i]);
        }
        lemma_typing_extends_line(v, init);
        assert(keys.last() == keys[keys.len() - 1]);
        assert((v.line + init).push(keys.last()) =~= v.line + keys);
    }
}

/// Shell commands and prompts share one history: a line typed in the
/// shell from an empty line and entered is what Up brings back first once
/// the AI prompt is opened, trimmed, when it is not blank.
pub proof fn lemma_shell_command_recalled(v: RouterView, line: Seq<char>)
    requires
        v.mode == InputMode::Shell,
        v.line.len() == 0,
        v.ai_available,
        v.history.len() <= HISTORY_LIMIT,
        forall|i: int| 0 <= i < line.len() ==> is_ascii_graphic(#[trigger] line[i]) || line[i] == ' ',
        trim_spec(line).len() > 0,
    ensures
        history_up_spec(toggle_ai_mode_spec(track_shell_char_spec(shell_keys_spec(v, line), '\r'))).input
            == trim_spec(line),
{
    lemma_typing_extends_line(v, line);
    assert(v.line + line =~= line);
    lemma_record_history(v.history, line);
}

/// Without the AI, the prompt never opens.
pub proof fn lemma_no_ai_no_prompt(v: RouterView)
    requires
        !v.ai_available,
        v.mode == InputMode::Shell,
    ensures
        toggle_ai_mode_spec(v) == v,
{
}

/// Running a command starts its capture with no output yet, under the
/// markers of its id, for its tool call, with the shell's echo turned off
/// before the script is sourced.
pub proof fn lemma_execute_starts_capture(
    v: RouterView,
    command: Seq<char>,
    tool_call_id: Seq<char>,
    id: Seq<char>,
)
    ensures
        ({
            let (w, a) = execute_spec(v, command, tool_call_id, id);
            &&& w.capture == Some(
                CaptureView {
                    start_marker: start_marker(id),
                    end_marker: end_marker(id),
                    tool_call_id,
                    raw: Seq::empty(),
                },
            )
            &&& w.mode == InputMode::AiStreaming
            &&& a[3] == ActionView::SetEcho(false)
            &&& a[4] == ActionView::PtyWrite(source_line(id))
            &&& a.len() == 5
        }),
{
}

/// Finishing a capture turns the echo back on, ends the capture, and puts
/// the result of the tool call last in the conversation (the limit keeps
/// at least the newest message).
pub proof fn lemma_finish_reports_result(v: RouterView)
    requires
        v.capture is Some,
        v.conversation_limit >= 1,
    ensures
        ({
            let (w, a) = finish_spec(v);
            let c = v.capture->0;
            &&& w.capture is None
            &&& a == seq![ActionView::SetEcho(true)]
            &&& w.pending_dispatch
            &&& w.conversation.last() == MessageView::Tool {
                tool_call_id: c.tool_call_id,
                content: capture_result_text(capture_report(c).1, capture_report(c).0),
            }
        }),
{
    let c = v.capture->0;
    let m = v.conversation.push(
        MessageView::Tool {
            tool_call_id: c.tool_call_id,
            content: capture_result_text(capture_report(c).1, capture_report(c).0),
        },
    );
    crate::ai::conversation::lemma_trim_bound(m, v.conversation_limit);
    let t = trim_conversation(m, v.conversation_limit);
    assert(t.len() > 0) by {
        crate::ai::conversation::lemma_trim_keeps_some(m, v.conversation_limit);
    }
    assert(t.last() == m.last()) by {
        assert(t == m.subrange(m.len() - t.len(), m.len() as int));
        assert(t[t.len() - 1] == m[m.len() - 1]);
    }
}

/// Declining a command answers its tool call, drops the other calls and
/// returns to the shell.
pub proof fn lemma_decline_answers_call(v: RouterView, edit: bool)
    requires
        v.pending is Some,
        v.conversation_limit >= 1,
    ensures
        ({
            let (w, _) = confirm_decline_spec(v, edit);
            &&& w.pending is None
            &&& w.queue.len() == 0
            &&& w.pending_calls.len() == 0
            &&& w.mode == InputMode::Shell
            &&& w.conversation.last() is Tool
            &&& w.conversation.last()->tool_call_id == v.pending->0.tool_call_id
        }),
{
    let p = v.pending->0;
    let m = v.conversation.push(
        MessageView::Tool {
            tool_call_id: p.tool_call_id,
            content: if edit {
                EDITED_RESULT@
            } else {
                CANCELLED_RESULT@
            },
        },
    );
    crate::ai::conversation::lemma_trim_bound(m, v.conversation_limit);
    crate::ai::conversation::lemma_trim_keeps_some(m, v.conversation_limit);
    let t = trim_conversation(m, v.conversation_limit);
    assert(t[t.len() - 1] == m[m.len() - 1]);
}

} // verus!
