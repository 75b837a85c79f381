use tai::ansi::strip_ansi;
use tai::capture::{
    capture_result, captured_text, command_script_text, end_marker_text, new_marker_id,
    parse_capture, start_marker_text, truncation_fits,
};

#[test]
fn markers_name_the_id() {
    assert_eq!(start_marker_text("0123abcd"), "TAI_S_0123abcd");
    assert_eq!(end_marker_text("0123abcd"), "TAI_E_0123abcd:");
}

#[test]
fn script_runs_command_between_markers() {
    assert_eq!(
        command_script_text("make test", "ffff0000"),
        "printf '\\e[8mTAI_S_ffff0000\\n\\e[28m'\nmake test\n__tai_ec=$?\nprintf '\\e[8m'\necho 'TAI_E_ffff0000:'\"$__tai_ec\"\nprintf '\\e[28m'\nrm -f /tmp/tai_cmd_ffff0000\n"
    );
}

#[test]
fn marker_ids_are_eight_hex_digits() {
    let a = new_marker_id();
    let b = new_marker_id();
    for id in [&a, &b] {
        assert_eq!(id.len(), 8);
        assert!(id.chars().all(|c| matches!(c, '0'..='9' | 'a'..='f')));
    }
    assert_ne!(a, b);
}

#[test]
fn capture_reads_output_and_code() {
    let raw: Vec<char> = "\x1b[8mTAI_S_x\n\x1b[28m  \x1b[32mok\x1b[0m  \n\x1b[8mTAI_E_x:42\r\nmore"
        .chars()
        .collect();
    let (out, code) = parse_capture(&raw, "TAI_S_x", "TAI_E_x:");
    assert_eq!(out, "ok");
    assert_eq!(code, 42);
}

#[test]
fn capture_without_end_marker_is_empty() {
    let raw: Vec<char> = "\x1b[8mTAI_S_x\nstill running".chars().collect();
    assert_eq!(parse_capture(&raw, "TAI_S_x", "TAI_E_x:"), (String::new(), -1));
    let none: Vec<char> = "nothing".chars().collect();
    assert_eq!(parse_capture(&none, "TAI_S_x", "TAI_E_x:"), (String::new(), -1));
}

#[test]
fn capture_with_unreadable_code() {
    let raw: Vec<char> = "\x1b[8mTAI_S_x\nout\n\x1b[8mTAI_E_x:abc\n".chars().collect();
    assert_eq!(parse_capture(&raw, "TAI_S_x", "TAI_E_x:"), ("out".to_string(), -1));
    let raw: Vec<char> = "\x1b[8mTAI_S_x\nout\n\x1b[8mTAI_E_x:-3\n".chars().collect();
    assert_eq!(parse_capture(&raw, "TAI_S_x", "TAI_E_x:").1, -3);
}

#[test]
fn result_text_is_exact() {
    assert_eq!(capture_result(0, "hi"), "Command output (exit code: 0):\nhi");
    assert_eq!(capture_result(-1, ""), "Command output (exit code: -1):\n");
}

#[test]
fn result_cuts_long_output() {
    let long = "é".repeat(2500);
    assert!(truncation_fits(&long));
    let r = capture_result(2, &long);
    assert_eq!(r, format!("Command output (exit code: 2):\n{}\n... [truncated, 5000 bytes total]", "é".repeat(2000)));
    let odd = format!("a{}", "é".repeat(2500));
    assert!(!truncation_fits(&odd));
    assert!(truncation_fits(&"x".repeat(4000)));
}

#[test]
fn lossy_text_replaces_invalid_bytes() {
    let t: String = captured_text(&[0x61, 0xff, 0x62]).into_iter().collect();
    assert_eq!(t, "a\u{fffd}b");
    let t: String = captured_text("ü".as_bytes()).into_iter().collect();
    assert_eq!(t, "ü");
}

#[test]
fn strip_ansi_removes_sequences() {
    assert_eq!(strip_ansi("\x1b[1;31mred\x1b[0m"), "red");
    assert_eq!(strip_ansi("a\x1b]0;title\x07b"), "ab");
    assert_eq!(strip_ansi("a\x1b]0;title\x1b\\b"), "ab");
    assert_eq!(strip_ansi("a\x1b(Bb"), "aBb");
    assert_eq!(strip_ansi("a\x1b"), "a");
    assert_eq!(strip_ansi("plain text"), "plain text");
    assert_eq!(strip_ansi("\x1b[?2004h~x"), "~x");
}

#[test]
fn strip_ansi_twice_is_once() {
    let s = "\x1b[31m\x1b]2;t\x07x\x1b[0m";
    assert_eq!(strip_ansi(&strip_ansi(s)), strip_ansi(s));
}
