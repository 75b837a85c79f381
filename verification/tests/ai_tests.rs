use tai::ai::auth::ChainedAuth;
use tai::ai::bridge::AiResponse;
use tai::ai::context::ContextBuilder;
use tai::ai::conversation::{estimate_msg_chars, ChatMessage, ConversationHistory, ToolCall};
use tai::ai::stream::{ToolCallAssembler, ToolCallDelta};
use tai::config::{env_pairs, inherits_var, TaiConfig};

fn delta(id: Option<&str>, name: Option<&str>, args: Option<&str>) -> ToolCallDelta {
    ToolCallDelta {
        id: id.map(|s| s.to_string()),
        name: name.map(|s| s.to_string()),
        arguments: args.map(|s| s.to_string()),
    }
}

fn describe(r: &AiResponse) -> String {
    match r {
        AiResponse::Token(t) => format!("token:{}", t),
        AiResponse::ToolCall { id, name, arguments } => format!("call:{}:{}:{}", id, name, arguments),
        AiResponse::Done => "done".to_string(),
        AiResponse::Error(e) => format!("error:{}", e),
    }
}

fn all(v: &[AiResponse]) -> Vec<String> {
    v.iter().map(describe).collect()
}

fn content(m: &ChatMessage) -> String {
    match m {
        ChatMessage::System { content } => format!("system:{}", content),
        ChatMessage::User { content } => format!("user:{}", content),
        ChatMessage::Assistant { content, tool_calls } => format!(
            "assistant:{}:{}",
            content.clone().unwrap_or_default(),
            tool_calls.as_ref().map(|v| v.len()).unwrap_or(0)
        ),
        ChatMessage::Tool { tool_call_id, content } => format!("tool:{}:{}", tool_call_id, content),
    }
}

fn history(h: &ConversationHistory) -> Vec<String> {
    h.messages().iter().map(content).collect()
}

#[test]
fn streamed_pieces_assemble_into_tool_calls() {
    let mut a = ToolCallAssembler::new();
    let first = a.on_choice(Some("Let me look.".into()), vec![delta(Some("c1"), Some("run_command"), Some("{\"com"))]);
    assert_eq!(all(&first), vec!["token:Let me look."]);
    let second = a.on_choice(None, vec![delta(None, None, Some("mand\":\"ls\"}"))]);
    assert!(second.is_empty());
    let third = a.on_choice(None, vec![delta(Some("c2"), Some("run_command"), Some("{}"))]);
    assert_eq!(all(&third), vec!["call:c1:run_command:{\"command\":\"ls\"}"]);
    assert_eq!(all(&a.finish()), vec!["call:c2:run_command:{}", "done"]);
}

#[test]
fn stream_without_tool_calls_just_ends() {
    let mut a = ToolCallAssembler::new();
    assert_eq!(all(&a.on_choice(Some("hi".into()), vec![])), vec!["token:hi"]);
    assert_eq!(all(&a.finish()), vec!["done"]);
}

#[test]
fn api_key_prefers_the_environment() {
    let mut cfg = TaiConfig::default();
    assert_eq!(cfg.api_key(None), None);
    assert!(!cfg.ai_enabled(Some("")));
    cfg.ai.api_key = "from-config".into();
    assert_eq!(cfg.api_key(None).as_deref(), Some("from-config"));
    assert_eq!(cfg.api_key(Some("")).as_deref(), Some("from-config"));
    assert_eq!(cfg.api_key(Some("from-env")).as_deref(), Some("from-env"));
    assert!(cfg.ai_enabled(None));
}

#[test]
fn chained_auth_skips_empty_keys() {
    assert_eq!(ChainedAuth::new(Some("e".into()), Some("c".into())).get_api_key(), Some("e"));
    assert_eq!(ChainedAuth::new(Some("".into()), Some("c".into())).get_api_key(), Some("c"));
    assert_eq!(ChainedAuth::new(None, Some("".into())).get_api_key(), None);
    assert_eq!(ChainedAuth::new(None, None).get_api_key(), None);
}

#[test]
fn defaults_match_the_documented_settings() {
    let cfg = TaiConfig::default();
    assert_eq!(cfg.ai.model, "gpt-5.4");
    assert!(!cfg.ai.auto_execute);
    assert_eq!(cfg.ai.max_context_lines, 100);
    assert_eq!(cfg.ai.max_history, 20);
    assert_eq!(cfg.terminal.font_size, 16);
    assert_eq!(cfg.terminal.scrollback, 100_000);
    assert_eq!(cfg.keybindings.ai_toggle, "ctrl+/");
}

#[test]
fn env_output_splits_at_the_first_equals() {
    let pairs = env_pairs("A=1\nNOEQ\nB=x=y\r\nC=\n");
    assert_eq!(
        pairs,
        vec![("A".to_string(), "1".to_string()), ("B".to_string(), "x=y".to_string()), ("C".to_string(), String::new())]
    );
}

#[test]
fn only_keys_and_unset_tai_settings_are_inherited() {
    assert!(inherits_var("OPENAI_API_KEY", true));
    assert!(inherits_var("ANTHROPIC_API_KEY", false));
    assert!(inherits_var("TAI_MODEL", false));
    assert!(!inherits_var("TAI_MODEL", true));
    assert!(!inherits_var("PATH", false));
    assert!(!inherits_var("TAI", false));
}

#[test]
fn user_message_carries_recent_lines_and_commands() {
    let b = ContextBuilder::new(2);
    let m = b.build_user_message("why?", "l1\nl2\nl3\n", &["ls".to_string(), "pwd".to_string()]);
    assert_eq!(
        content(&m),
        "user:Terminal output (last 2 lines):\n```\nl2\nl3\n```\n\nRecent commands: ls, pwd\n\nUser: why?"
    );
    let none = ContextBuilder::new(5).build_user_message("q", "", &[]);
    assert_eq!(content(&none), "user:Terminal output (last 5 lines):\n```\n\n```\n\nRecent commands: none\n\nUser: q");
}

#[test]
fn system_message_describes_the_environment() {
    let m = ContextBuilder::build_system_message("macos", "aarch64", "zsh", "/home/me");
    let text = content(&m);
    assert!(text.starts_with("system:You are TAI, an AI assistant embedded in a terminal emulator."));
    assert!(text.contains("- OS: macos (aarch64)\n- Shell: zsh\n- Working directory: /home/me\n\nRules:"));
    assert!(text.ends_with("always include a brief explanation parameter."));
}

#[test]
fn history_keeps_at_most_twice_the_exchanges() {
    let mut h = ConversationHistory::new(1);
    h.push_user("a");
    h.push_assistant("b");
    h.push_user("c");
    assert_eq!(history(&h), vec!["assistant:b:0", "user:c"]);
    assert_eq!(h.len(), 2);
}

#[test]
fn trimming_drops_a_tool_call_with_its_result() {
    let mut h = ConversationHistory::new(2);
    h.push_assistant_tool_call(vec![ToolCall { id: "t".into(), name: "run_command".into(), arguments: "{}".into() }]);
    h.push_tool_result("t", "out");
    h.push_user("u1");
    h.push_assistant("a1");
    h.push_user("u2");
    assert_eq!(history(&h), vec!["user:u1", "assistant:a1:0", "user:u2"]);
}

#[test]
fn trailing_orphan_calls_are_removed() {
    let mut h = ConversationHistory::new(10);
    h.push_user("q");
    h.push_assistant_tool_call(vec![ToolCall { id: "t".into(), name: "n".into(), arguments: "{}".into() }]);
    h.push_tool_result("t", "r");
    h.remove_trailing_orphans();
    assert_eq!(history(&h), vec!["user:q"]);
    h.clear();
    assert_eq!(h.len(), 0);
}

#[test]
fn built_messages_start_with_the_system_message() {
    let mut h = ConversationHistory::new(10);
    h.push_user("hello");
    let msgs = h.build_messages(ChatMessage::System { content: "sys".into() });
    let texts: Vec<String> = msgs.iter().map(content).collect();
    assert_eq!(texts, vec!["system:sys", "user:hello"]);
}

#[test]
fn oversized_history_is_cut_from_the_front() {
    let mut h = ConversationHistory::new(10);
    let big = "x".repeat(70_000);
    h.push_user(&big);
    h.push_assistant(&big);
    h.push_user("small");
    let msgs = h.build_messages(ChatMessage::System { content: "s".into() });
    assert_eq!(msgs.len(), 3);
    assert_eq!(h.len(), 2);
    assert_eq!(content(&msgs[2]), "user:small");
}

#[test]
fn message_size_is_estimated_in_bytes() {
    assert_eq!(estimate_msg_chars(&ChatMessage::User { content: "héllo".into() }), 6);
    let call = ChatMessage::Assistant {
        content: Some("ab".into()),
        tool_calls: Some(vec![ToolCall { id: "i".into(), name: "run".into(), arguments: "{}".into() }]),
    };
    assert_eq!(estimate_msg_chars(&call), 2 + 2 + 3 + 50);
}
