//! The messages that give the AI its context: a system message describing
//! the environment and rules, and a user message carrying the recent
//! terminal output and commands with the question.
use vstd::prelude::*;

use crate::ai::conversation::{ChatMessage, MessageView};
use crate::text::{
    char_vecs_view, dec_spec, join_char_vecs, join_spec, join_strings, lines_of, lines_spec,
    push_decimal, strings_view,
};

verus! {

/// Opening of the system message, up to the operating system.
pub const SYSTEM_INTRO: &'static str = "You are TAI, an AI assistant embedded in a terminal emulator. You can see the user's terminal output and execute commands directly.\n\nEnvironment:\n- OS: ";

/// Between the operating system and the architecture.
pub const SYSTEM_ARCH: &'static str = " (";

/// Between the architecture and the shell.
pub const SYSTEM_SHELL: &'static str = ")\n- Shell: ";

/// Between the shell and the working directory.
pub const SYSTEM_CWD: &'static str = "\n- Working directory: ";

/// The rules that close the system message.
pub const SYSTEM_RULES: &'static str = "\n\nRules:\n- When the user asks you to do something, prefer using the run_command tool to execute commands directly rather than just explaining what to do.\n- You can chain multiple run_command calls to complete complex tasks.\n- Be concise. You are in a terminal, not a chat window.\n- After running commands, keep your response very brief since the user already sees the command output in real time. Only add commentary if something needs explanation.\n- When using run_command, always include a brief explanation parameter.";

/// Text of the system message for the given environment.
pub open spec fn system_text(os: Seq<char>, arch: Seq<char>, shell: Seq<char>, cwd: Seq<char>) -> Seq<char> {
    SYSTEM_INTRO@ + os + SYSTEM_ARCH@ + arch + SYSTEM_SHELL@ + shell + SYSTEM_CWD@ + cwd
        + SYSTEM_RULES@
}

/// The last `max` lines of the terminal output, joined by newlines.
pub open spec fn recent_lines(buffer: Seq<char>, max: nat) -> Seq<char> {
    let lines = lines_spec(buffer);
    let start = if lines.len() > max {
        lines.len() - max
    } else {
        0
    };
    join_spec(lines.subrange(start as int, lines.len() as int), "\n"@)
}

/// The recent commands, comma separated, or `none`.
pub open spec fn history_text(commands: Seq<Seq<char>>) -> Seq<char> {
    if commands.len() == 0 {
        "none"@
    } else {
        join_spec(commands, ", "@)
    }
}

/// Text of the user message: the recent terminal output in a code block,
/// the recent commands, and the question.
pub open spec fn user_text(max: nat, buffer: Seq<char>, commands: Seq<Seq<char>>, query: Seq<char>) -> Seq<char> {
    "Terminal output (last "@ + dec_spec(max) + " lines):\n```\n"@ + recent_lines(buffer, max)
        + "\n```\n\nRecent commands: "@ + history_text(commands) + "\n\nUser: "@ + query
}

/// Builds the messages that carry context to the AI.
pub struct ContextBuilder {
    pub max_context_lines: usize,
}

impl ContextBuilder {
    /// A builder that sends at most `max_context_lines` lines of output.
    pub fn new(max_context_lines: usize) -> (r: Self)
        ensures
            r.max_context_lines == max_context_lines,
    {
        ContextBuilder { max_context_lines }
    }

    /// The system message for the given environment.
    pub fn build_system_message(os: &str, arch: &str, shell: &str, cwd: &str) -> (r: ChatMessage)
        ensures
            r@ == (MessageView::System { content: system_text(os@, arch@, shell@, cwd@) }),
    {
        let mut content = String::new();
        content.push_str(SYSTEM_INTRO);
        content.push_str(os);
        content.push_str(SYSTEM_ARCH);
        content.push_str(arch);
        content.push_str(SYSTEM_SHELL);
        content.push_str(shell);
        content.push_str(SYSTEM_CWD);
        content.push_str(cwd);
        content.push_str(SYSTEM_RULES);
        ChatMessage::System { content }
    }

    /// The user message for a question, with the last lines of the terminal
    /// output and the recent commands.
    pub fn build_user_message(&self, query: &str, terminal_buffer: &str, command_history: &[String]) -> (r:
        ChatMessage)
        ensures
            r@ == (MessageView::User {
                content: user_text(
                    self.max_context_lines as nat,
                    terminal_buffer@,
                    strings_view(command_history@),
                    query@,
                ),
            }),
    {
        let lines = lines_of(terminal_buffer);
        let start = if lines.len() > self.max_context_lines {
            lines.len() - self.max_context_lines
        } else {
            0
        };
        let trimmed = join_char_vecs(lines.as_slice(), start, "\n");
        proof {
            let lv = char_vecs_view(lines@);
            assert(lv =~= lines_spec(terminal_buffer@));
            assert(char_vecs_view(lines@.subrange(start as int, lines@.len() as int)) =~= lv.subrange(
                start as int,
                lv.len() as int,
            ));
        }
        let history_str = if command_history.len() == 0 {
            "none".to_owned()
        } else {
            join_strings(command_history, ", ")
        };
        let mut content = String::new();
        content.push_str("Terminal output (last ");
        push_decimal(&mut content, self.max_context_lines as u64);
        content.push_str(" lines):\n```\n");
        content.push_str(trimmed.as_str());
        content.push_str("\n```\n\nRecent commands: ");
        content.push_str(history_str.as_str());
        content.push_str("\n\nUser: ");
        content.push_str(query);
        ChatMessage::User { content }
    }
}

} // verus!
