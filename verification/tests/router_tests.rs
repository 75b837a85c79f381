use std::collections::VecDeque;

use tai::ai::bridge::AiResponse;
use tai::ai::conversation::{ChatMessage, ToolCall};
use tai::config::TaiConfig;
use tai::router::{InputMode, InputRouter, PromptEnv, RouterAction, SubmitStep};

fn config(auto_execute: bool) -> TaiConfig {
    let mut c = TaiConfig::default();
    c.ai.auto_execute = auto_execute;
    c
}

fn env() -> PromptEnv {
    PromptEnv {
        os: "linux".to_string(),
        arch: "x86_64".to_string(),
        shell: "/bin/bash".to_string(),
        cwd: "/home/u".to_string(),
    }
}

fn texts(actions: &[RouterAction]) -> Vec<String> {
    actions
        .iter()
        .map(|a| match a {
            RouterAction::TerminalWrite(s) => format!("term:{s}"),
            RouterAction::PtyWrite(s) => format!("pty:{s}"),
            RouterAction::SetEcho(b) => format!("echo:{b}"),
            RouterAction::SendChat(m) => format!("chat:{}", m.len()),
            RouterAction::ShowOverlay { command, explanation } => {
                format!("show:{command}|{explanation}")
            }
            RouterAction::HideOverlay => "hide".to_string(),
            RouterAction::WriteFile { path, contents } => format!("file:{path}|{contents}"),
            RouterAction::StartCaptureTimer => "timer".to_string(),
        })
        .collect()
}

fn last_tool_result(msgs: &VecDeque<ChatMessage>) -> Option<(String, String)> {
    match msgs.back() {
        Some(ChatMessage::Tool { tool_call_id, content }) => {
            Some((tool_call_id.clone(), content.clone()))
        }
        _ => None,
    }
}

fn type_prompt(r: &mut InputRouter, text: &str) {
    for c in text.chars() {
        r.handle_ai_prompt_char(c);
    }
}

#[test]
fn router_starts_in_shell_mode() {
    let r = InputRouter::new(&config(false), true);
    assert_eq!(r.mode(), InputMode::Shell);
    assert_eq!(r.ai_input_buffer(), "");
    assert!(r.ai_available());
    assert!(!r.auto_execute());
    assert!(r.unified_history().is_empty());
}

#[test]
fn toggle_ai_mode_needs_ai() {
    let mut r = InputRouter::new(&config(false), false);
    r.toggle_ai_mode();
    assert_eq!(r.mode(), InputMode::Shell);

    let mut r = InputRouter::new(&config(false), true);
    r.toggle_ai_mode();
    assert_eq!(r.mode(), InputMode::AiPrompt);
    type_prompt(&mut r, "hi");
    r.toggle_ai_mode();
    assert_eq!(r.mode(), InputMode::Shell);
    assert_eq!(r.ai_input_buffer(), "");
}

#[test]
fn toggle_auto_execute_flips() {
    let mut r = InputRouter::new(&config(false), true);
    r.toggle_auto_execute();
    assert!(r.auto_execute());
    r.toggle_auto_execute();
    assert!(!r.auto_execute());
}

#[test]
fn prompt_typing_and_backspace() {
    let mut r = InputRouter::new(&config(false), true);
    r.handle_ai_prompt_char('x');
    assert_eq!(r.ai_input_buffer(), "");
    r.toggle_ai_mode();
    type_prompt(&mut r, "abc");
    r.handle_ai_prompt_backspace();
    assert_eq!(r.ai_input_buffer(), "ab");
    r.handle_ai_prompt_cancel();
    assert_eq!(r.mode(), InputMode::Shell);
    assert_eq!(r.ai_input_buffer(), "");
}

#[test]
fn shell_chars_record_commands() {
    let mut r = InputRouter::new(&config(false), true);
    for c in "ls -la".chars() {
        r.track_shell_char(c);
    }
    r.track_shell_char('\u{7f}');
    r.track_shell_char('a');
    r.track_shell_char('\u{1}');
    r.track_shell_char('\r');
    assert_eq!(r.command_history(), &vec!["ls -la".to_string()]);
    assert_eq!(r.unified_history(), &vec!["ls -la".to_string()]);
    r.track_shell_char('\n');
    assert_eq!(r.command_history().len(), 1);
}

#[test]
fn history_skips_repeats_and_blanks() {
    let mut r = InputRouter::new(&config(false), true);
    for line in ["pwd", "pwd", "   ", " pwd "] {
        for c in line.chars() {
            r.track_shell_char(c);
        }
        r.track_shell_char('\n');
    }
    assert_eq!(r.unified_history(), &vec!["pwd".to_string()]);
    assert_eq!(r.command_history().len(), 4);
}

#[test]
fn command_history_keeps_last_hundred() {
    let mut r = InputRouter::new(&config(false), true);
    for i in 0..105 {
        for c in format!("cmd{i}").chars() {
            r.track_shell_char(c);
        }
        r.track_shell_char('\n');
    }
    assert_eq!(r.command_history().len(), 100);
    assert_eq!(r.command_history()[0], "cmd5");
    assert_eq!(r.unified_history().len(), 105);
}

#[test]
fn unified_history_keeps_last_two_hundred() {
    let mut r = InputRouter::new(&config(false), true);
    for i in 0..205 {
        for c in format!("c{i}").chars() {
            r.track_shell_char(c);
        }
        r.track_shell_char('\n');
    }
    assert_eq!(r.unified_history().len(), 200);
    assert_eq!(r.unified_history()[0], "c5");
}

#[test]
fn history_up_and_down_restore_draft() {
    let mut r = InputRouter::new(&config(false), true);
    r.restore_history(vec!["one".into(), "two".into()], vec![], false);
    r.toggle_ai_mode();
    type_prompt(&mut r, "dr");
    r.handle_ai_prompt_history_up();
    assert_eq!(r.ai_input_buffer(), "two");
    r.handle_ai_prompt_history_up();
    assert_eq!(r.ai_input_buffer(), "one");
    r.handle_ai_prompt_history_up();
    assert_eq!(r.ai_input_buffer(), "one");
    r.handle_ai_prompt_history_down();
    assert_eq!(r.ai_input_buffer(), "two");
    r.handle_ai_prompt_history_down();
    assert_eq!(r.ai_input_buffer(), "dr");
    assert_eq!(r.history_index(), None);
}

#[test]
fn submit_clear_empties_conversation() {
    let mut r = InputRouter::new(&config(false), true);
    r.restore_conversation(vec![ChatMessage::User { content: "q".into() }]);
    r.toggle_ai_mode();
    type_prompt(&mut r, " /clear ");
    match r.handle_ai_prompt_submit() {
        SubmitStep::Cleared => {}
        _ => panic!("expected the conversation to be cleared"),
    }
    assert_eq!(r.mode(), InputMode::Shell);
    assert!(r.conversation_messages().is_empty());
    assert!(r.unified_history().is_empty());
}

#[test]
fn submit_echoes_and_sends() {
    let mut r = InputRouter::new(&config(false), true);
    r.toggle_ai_mode();
    type_prompt(&mut r, "list\nfiles");
    let echo = match r.handle_ai_prompt_submit() {
        SubmitStep::Echo(s) => s,
        _ => panic!("expected an echo"),
    };
    assert_eq!(echo, "\r\x1b[2K\x1b[1;35m\u{276f} list\r\n  files\x1b[0m");
    assert_eq!(r.unified_history(), &vec!["list\nfiles".to_string()]);
    let actions = r.complete_ai_prompt_submit("out\n$ ", &env());
    assert_eq!(r.mode(), InputMode::AiStreaming);
    assert_eq!(r.ai_input_buffer(), "");
    assert_eq!(actions.len(), 1);
    match &actions[0] {
        RouterAction::SendChat(msgs) => {
            assert_eq!(msgs.len(), 2);
            match &msgs[0] {
                ChatMessage::System { content } => assert!(content.contains("- OS: linux (x86_64)")),
                _ => panic!("system message first"),
            }
            match &msgs[1] {
                ChatMessage::User { content } => {
                    assert!(content.starts_with("Terminal output (last 100 lines):\n```\nout\n$ \n```"));
                    assert!(content.ends_with("\n\nRecent commands: none\n\nUser: list\nfiles"));
                }
                _ => panic!("user message second"),
            }
        }
        _ => panic!("expected a request"),
    }
    assert_eq!(r.conversation_messages().len(), 1);
}

#[test]
fn submit_ignored_outside_prompt() {
    let mut r = InputRouter::new(&config(false), true);
    assert!(matches!(r.handle_ai_prompt_submit(), SubmitStep::Ignored));
    assert!(r.complete_ai_prompt_submit("", &env()).is_empty());
}

#[test]
fn execute_command_writes_script_and_sources_it() {
    let mut r = InputRouter::new(&config(false), true);
    let actions = r.execute_command_with_marker("ls", "call_1", "abcd1234");
    assert_eq!(
        texts(&actions),
        vec![
            "term:\r\n\x1b[1;33m$ ls\x1b[0m".to_string(),
            "file:/tmp/tai_cmd_abcd1234|printf '\\e[8mTAI_S_abcd1234\\n\\e[28m'\nls\n__tai_ec=$?\nprintf '\\e[8m'\necho 'TAI_E_abcd1234:'\"$__tai_ec\"\nprintf '\\e[28m'\nrm -f /tmp/tai_cmd_abcd1234\n".to_string(),
            "timer".to_string(),
            "echo:false".to_string(),
            "pty: . /tmp/tai_cmd_abcd1234\n".to_string(),
        ]
    );
    assert_eq!(r.mode(), InputMode::AiStreaming);
    assert!(r.capture_buffer().is_some());
}

#[test]
fn capture_finishes_at_end_marker() {
    let mut r = InputRouter::new(&config(false), true);
    r.execute_command_with_marker("ls", "call_1", "abcd1234");
    let out = b"junk\x1b[8mTAI_S_abcd1234\n\x1b[28mfile1\nfile2\n\x1b[8mTAI_E_abcd1234:0\n\x1b[28m";
    r.capture_buffer().unwrap().extend_from_slice(&out[..20]);
    let o = r.poll_ai_responses(false, &env()).unwrap();
    assert!(o.actions.is_empty());
    assert!(o.drain);
    r.capture_buffer().unwrap().extend_from_slice(&out[20..]);
    let o = r.poll_ai_responses(false, &env()).unwrap();
    // The capture ends, its result joins the conversation, and it is sent.
    assert_eq!(texts(&o.actions), vec!["echo:true".to_string(), "chat:2".to_string()]);
    assert!(o.drain);
    assert!(r.capture_buffer().is_none());
    assert_eq!(
        last_tool_result(r.conversation_messages()),
        Some(("call_1".to_string(), "Command output (exit code: 0):\nfile1\nfile2".to_string()))
    );
}

#[test]
fn capture_times_out_without_markers() {
    let mut r = InputRouter::new(&config(false), true);
    r.execute_command_with_marker("sleep 99", "c9", "00000000");
    r.capture_buffer().unwrap().extend_from_slice(b"partial");
    let o = r.poll_ai_responses(true, &env()).unwrap();
    assert_eq!(texts(&o.actions)[0], "echo:true");
    assert_eq!(
        last_tool_result(r.conversation_messages()),
        Some(("c9".to_string(), "Command output (exit code: -1):\n".to_string()))
    );
}

#[test]
fn capture_output_is_truncated() {
    let mut r = InputRouter::new(&config(false), true);
    r.execute_command_with_marker("yes", "t", "11111111");
    let mut raw = b"\x1b[8mTAI_S_11111111\n".to_vec();
    raw.extend(std::iter::repeat(b'y').take(4005));
    raw.extend_from_slice(b"\n\x1b[8mTAI_E_11111111:1\n");
    r.capture_buffer().unwrap().extend_from_slice(&raw);
    r.poll_ai_responses(false, &env()).unwrap();
    let (_, content) = last_tool_result(r.conversation_messages()).unwrap();
    let expected = format!(
        "Command output (exit code: 1):\n{}\n... [truncated, 4005 bytes total]",
        "y".repeat(4000)
    );
    assert_eq!(content, expected);
}

#[test]
fn poll_refuses_cut_inside_character() {
    let mut r = InputRouter::new(&config(false), true);
    r.execute_command_with_marker("x", "t", "22222222");
    let mut raw = b"\x1b[8mTAI_S_22222222\n".to_vec();
    raw.extend_from_slice(&"a".repeat(3999).into_bytes());
    raw.extend_from_slice("\u{e9}bbbb".as_bytes());
    raw.extend_from_slice(b"\n\x1b[8mTAI_E_22222222:0\n");
    r.capture_buffer().unwrap().extend_from_slice(&raw);
    assert!(r.poll_ai_responses(false, &env()).is_none());
    assert!(r.capture_buffer().is_some());
}

#[test]
fn tokens_stream_and_done_returns_to_shell() {
    let mut r = InputRouter::new(&config(false), true);
    r.toggle_ai_mode();
    type_prompt(&mut r, "q");
    r.handle_ai_prompt_submit();
    r.complete_ai_prompt_submit("", &env());
    let a = r.handle_ai_response(AiResponse::Token("Hel".into()));
    assert_eq!(
        texts(&a),
        vec![
            "term:\r\n".to_string(),
            "term:\x1b[36m\x1b[1m TAI:\x1b[22m ".to_string(),
            "term:\x1b[36mHel\x1b[0m".to_string(),
        ]
    );
    let a = r.handle_ai_response(AiResponse::Token("lo\nthere".into()));
    assert_eq!(texts(&a), vec!["term:\x1b[36mlo\r\nthere\x1b[0m".to_string()]);
    let a = r.handle_ai_response(AiResponse::Done);
    assert_eq!(texts(&a), vec!["term:\x1b[0m".to_string(), "pty:\n".to_string()]);
    assert_eq!(r.mode(), InputMode::Shell);
    match r.conversation_messages().back() {
        Some(ChatMessage::Assistant { content: Some(t), tool_calls: None }) => {
            assert_eq!(t, "Hello\nthere")
        }
        _ => panic!("expected the reply in the conversation"),
    }
}

#[test]
fn tool_calls_wait_for_confirmation() {
    let mut r = InputRouter::new(&config(false), true);
    r.handle_ai_response(AiResponse::ToolCall {
        id: "c1".into(),
        name: "run_command".into(),
        arguments: "{\"command\":\"ls -l\",\"explanation\":\"list\"}".into(),
    });
    r.handle_ai_response(AiResponse::ToolCall {
        id: "c2".into(),
        name: "other_tool".into(),
        arguments: "{}".into(),
    });
    let a = r.handle_ai_response(AiResponse::Done);
    assert_eq!(texts(&a), vec!["show:ls -l|list".to_string()]);
    assert_eq!(r.mode(), InputMode::CommandConfirm);
    match r.conversation_messages().back() {
        Some(ChatMessage::Assistant { content: None, tool_calls: Some(calls) }) => {
            assert_eq!(calls.len(), 2);
            assert_eq!(calls[0].id, "c1");
        }
        _ => panic!("expected the tool calls in the conversation"),
    }
    let a = r.handle_command_confirm_cancel();
    assert_eq!(texts(&a), vec!["hide".to_string(), "pty:\n".to_string()]);
    assert_eq!(r.mode(), InputMode::Shell);
    assert_eq!(
        last_tool_result(r.conversation_messages()),
        Some(("c1".to_string(), "User cancelled the command.".to_string()))
    );
}

#[test]
fn confirm_edit_sends_command_to_shell() {
    let mut r = InputRouter::new(&config(false), true);
    r.handle_ai_response(AiResponse::ToolCall {
        id: "c1".into(),
        name: "run_command".into(),
        arguments: "{\"command\":\"rm x\"}".into(),
    });
    let a = r.handle_ai_response(AiResponse::Done);
    assert_eq!(texts(&a), vec!["show:rm x|".to_string()]);
    let a = r.handle_command_confirm_edit();
    assert_eq!(texts(&a), vec!["hide".to_string(), "pty:rm x".to_string()]);
    assert_eq!(
        last_tool_result(r.conversation_messages()),
        Some(("c1".to_string(), "User chose to edit the command manually.".to_string()))
    );
}

#[test]
fn confirm_enter_runs_with_fresh_marker() {
    let mut r = InputRouter::new(&config(false), true);
    r.handle_ai_response(AiResponse::ToolCall {
        id: "c1".into(),
        name: "run_command".into(),
        arguments: "{\"command\":\"pwd\"}".into(),
    });
    r.handle_ai_response(AiResponse::Done);
    let a = r.handle_command_confirm_enter();
    let t = texts(&a);
    assert_eq!(t.len(), 6);
    assert_eq!(t[0], "hide");
    assert_eq!(t[1], "term:\r\n\x1b[1;33m$ pwd\x1b[0m");
    let source = t[5].strip_prefix("pty: . /tmp/tai_cmd_").unwrap();
    let id = source.strip_suffix('\n').unwrap();
    assert_eq!(id.len(), 8);
    assert!(id.chars().all(|c| c.is_ascii_hexdigit() && !c.is_ascii_uppercase()));
    assert_eq!(r.mode(), InputMode::AiStreaming);
}

#[test]
fn auto_execute_runs_queued_commands_in_turn() {
    let mut r = InputRouter::new(&config(true), true);
    for (id, cmd) in [("a", "echo 1"), ("b", "echo 2")] {
        r.handle_ai_response(AiResponse::ToolCall {
            id: id.into(),
            name: "run_command".into(),
            arguments: format!("{{\"command\":\"{cmd}\"}}"),
        });
    }
    let a = r.handle_ai_response(AiResponse::Done);
    assert_eq!(texts(&a)[0], "term:\r\n\x1b[1;33m$ echo 1\x1b[0m");
    // Finish the first command; the second is dispatched on the next poll.
    let o = r.poll_ai_responses(true, &env()).unwrap();
    let t = texts(&o.actions);
    assert_eq!(t[0], "echo:true");
    assert_eq!(t[1], "term:\r\n\x1b[1;33m$ echo 2\x1b[0m");
    assert!(!o.drain);
}

#[test]
fn done_during_capture_waits() {
    let mut r = InputRouter::new(&config(false), true);
    r.execute_command_with_marker("ls", "c", "33333333");
    let a = r.handle_ai_response(AiResponse::Done);
    assert!(a.is_empty());
    assert!(r.capture_buffer().is_some());
}

#[test]
fn error_drops_unanswered_requests() {
    let mut r = InputRouter::new(&config(false), true);
    r.restore_conversation(vec![
        ChatMessage::User { content: "q".into() },
        ChatMessage::Assistant {
            content: None,
            tool_calls: Some(vec![ToolCall { id: "x".into(), name: "n".into(), arguments: "{}".into() }]),
        },
    ]);
    r.handle_ai_response(AiResponse::ToolCall { id: "y".into(), name: "n".into(), arguments: "".into() });
    let a = r.handle_ai_response(AiResponse::Error("boom".into()));
    assert_eq!(
        texts(&a),
        vec!["term:\r\n\x1b[31mTAI Error: boom\x1b[0m\r\n".to_string(), "pty:\n".to_string()]
    );
    assert_eq!(r.mode(), InputMode::Shell);
    assert_eq!(r.conversation_messages().len(), 1);
}

#[test]
fn malformed_arguments_are_not_queued() {
    let mut r = InputRouter::new(&config(false), true);
    r.handle_ai_response(AiResponse::ToolCall {
        id: "c1".into(),
        name: "run_command".into(),
        arguments: "not json".into(),
    });
    let a = r.handle_ai_response(AiResponse::Done);
    assert!(a.is_empty());
    assert_eq!(r.mode(), InputMode::Shell);
}

#[test]
fn poll_without_ai_does_not_drain() {
    let mut r = InputRouter::new(&config(false), false);
    let o = r.poll_ai_responses(false, &env()).unwrap();
    assert!(o.actions.is_empty());
    assert!(!o.drain);
}

#[test]
fn shell_command_comes_back_in_the_prompt_history() {
    let mut r = InputRouter::new(&config(false), true);
    for c in "  git status ".chars() {
        r.track_shell_char(c);
    }
    r.track_shell_char('\r');
    r.toggle_ai_mode();
    assert_eq!(r.mode(), InputMode::AiPrompt);
    r.handle_ai_prompt_history_up();
    assert_eq!(r.ai_input_buffer(), "git status");
}

fn shell_line(r: &mut InputRouter, line: &str) {
    for c in line.chars() {
        r.track_shell_char(c);
    }
    r.track_shell_char('\r');
}

#[test]
fn each_press_of_up_reaches_an_older_entry() {
    let mut r = InputRouter::new(&config(false), true);
    for cmd in ["ls", "pwd", "make"] {
        shell_line(&mut r, cmd);
    }
    r.toggle_ai_mode();
    type_prompt(&mut r, "draft");
    let expected = ["make", "pwd", "ls", "ls", "ls"];
    for want in expected {
        r.handle_ai_prompt_history_up();
        assert_eq!(r.ai_input_buffer(), want);
    }
    assert_eq!(r.unified_history(), &vec!["ls".to_string(), "pwd".to_string(), "make".to_string()]);
    assert_eq!(r.mode(), InputMode::AiPrompt);
}

#[test]
fn as_many_downs_as_ups_bring_back_the_draft() {
    let mut r = InputRouter::new(&config(false), true);
    for cmd in ["ls", "pwd", "make"] {
        shell_line(&mut r, cmd);
    }
    r.toggle_ai_mode();
    type_prompt(&mut r, "half typed");
    r.handle_ai_prompt_history_up();
    r.handle_ai_prompt_history_up();
    assert_eq!(r.ai_input_buffer(), "pwd");
    r.handle_ai_prompt_history_down();
    assert_eq!(r.ai_input_buffer(), "make");
    r.handle_ai_prompt_history_down();
    assert_eq!(r.ai_input_buffer(), "half typed");
    assert_eq!(r.history_index(), None);
    r.handle_ai_prompt_history_down();
    assert_eq!(r.ai_input_buffer(), "half typed");
}

#[test]
fn histories_stay_bounded_trimmed_and_without_repeats() {
    let mut r = InputRouter::new(&config(false), true);
    for i in 0..250 {
        shell_line(&mut r, &format!("  echo {i}  "));
        shell_line(&mut r, &format!("echo {i}"));
    }
    shell_line(&mut r, "   ");
    let h = r.unified_history();
    assert_eq!(h.len(), 200);
    assert_eq!(h[0], "echo 50");
    assert_eq!(h[199], "echo 249");
    assert!(h.iter().all(|e| !e.is_empty() && e.trim() == e));
    assert!(h.windows(2).all(|w| w[0] != w[1]));
    assert_eq!(r.command_history().len(), 100);
    assert_eq!(r.command_history()[99], "   ");
}
