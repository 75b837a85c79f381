use tai::ansi::strip_ansi;
use tai::text::{
    chars_before_byte, decimal_string, find_first_exec, find_seq, join_strings, lines_of,
    parse_i32, push_replacing_newlines, push_signed_decimal, sort_strings, split_chars,
    str_eq, trim_end_len, trim_string, utf8_len_sat,
};

fn chars(s: &str) -> Vec<char> {
    s.chars().collect()
}

fn strings(v: &[&str]) -> Vec<String> {
    v.iter().map(|s| s.to_string()).collect()
}

#[test]
fn integers_parse_as_std_parses_them() {
    assert_eq!(parse_i32(&chars("42")), Some(42));
    assert_eq!(parse_i32(&chars("-17")), Some(-17));
    assert_eq!(parse_i32(&chars("+5")), Some(5));
    assert_eq!(parse_i32(&chars("2147483647")), Some(i32::MAX));
    assert_eq!(parse_i32(&chars("-2147483648")), Some(i32::MIN));
    assert_eq!(parse_i32(&chars("2147483648")), None);
    assert_eq!(parse_i32(&chars("")), None);
    assert_eq!(parse_i32(&chars("-")), None);
    assert_eq!(parse_i32(&chars(" 1")), None);
    assert_eq!(parse_i32(&chars("1a")), None);
}

#[test]
fn decimals_print_as_std_prints_them() {
    assert_eq!(decimal_string(0), "0");
    assert_eq!(decimal_string(1234567890), "1234567890");
    assert_eq!(decimal_string(u64::MAX), u64::MAX.to_string());
    let mut s = String::from("x=");
    push_signed_decimal(&mut s, -305);
    assert_eq!(s, "x=-305");
    let mut m = String::new();
    push_signed_decimal(&mut m, i64::MIN);
    assert_eq!(m, i64::MIN.to_string());
}

#[test]
fn trimming_removes_unicode_whitespace() {
    assert_eq!(trim_string("  a b \t\n"), "a b");
    assert_eq!(trim_string("\u{a0}x\u{2003}"), "x");
    assert_eq!(trim_string("   "), "");
    assert_eq!(trim_end_len(&chars("ab  ")), 2);
}

#[test]
fn lines_drop_the_last_empty_piece_and_carriage_returns() {
    let l: Vec<String> = lines_of("a\r\nb\n\nc").iter().map(|v| v.iter().collect()).collect();
    assert_eq!(l, vec!["a", "b", "", "c"]);
    let l2: Vec<String> = lines_of("x\n").iter().map(|v| v.iter().collect()).collect();
    assert_eq!(l2, vec!["x"]);
    assert!(lines_of("").is_empty());
}

#[test]
fn split_keeps_empty_pieces() {
    let parts: Vec<String> = split_chars(&chars(";a;;b"), ';').iter().map(|v| v.iter().collect()).collect();
    assert_eq!(parts, vec!["", "a", "", "b"]);
}

#[test]
fn search_finds_the_first_occurrence() {
    assert_eq!(find_seq(&chars("abcabc"), &chars("ca")), Some(2));
    assert_eq!(find_seq(&chars("abc"), &chars("x")), None);
    assert_eq!(find_first_exec(&chars("abcabc"), &chars("bc")), Some(1));
    assert_eq!(find_first_exec(&chars("abc"), &chars("")), Some(0));
    assert_eq!(find_first_exec(&chars("ab"), &chars("abc")), None);
}

#[test]
fn joining_and_replacing() {
    assert_eq!(join_strings(&strings(&["a", "b", "c"]), ", "), "a, b, c");
    assert_eq!(join_strings(&[], ", "), "");
    let mut out = String::from(">");
    push_replacing_newlines(&mut out, "a\nb\n", " | ");
    assert_eq!(out, ">a | b | ");
    assert!(str_eq("same", "same"));
    assert!(!str_eq("same", "Same"));
}

#[test]
fn byte_lengths_and_boundaries() {
    assert_eq!(utf8_len_sat("aé€😀"), 1 + 2 + 3 + 4);
    let v = chars("aé€");
    assert_eq!(chars_before_byte(&v, 0), Some(0));
    assert_eq!(chars_before_byte(&v, 3), Some(2));
    assert_eq!(chars_before_byte(&v, 2), None);
    assert_eq!(chars_before_byte(&v, 6), Some(3));
    assert_eq!(chars_before_byte(&v, 7), None);
}

#[test]
fn strings_sort_as_std_sorts_them() {
    let input = strings(&["beta", "Alpha", "alpha", "", "é", "b", "alp"]);
    let mut expected = input.clone();
    expected.sort();
    assert_eq!(sort_strings(input), expected);
}

#[test]
fn escapes_are_stripped_from_text() {
    assert_eq!(strip_ansi("\x1b[31mred\x1b[0m plain"), "red plain");
    assert_eq!(strip_ansi("\x1b]0;title\x07after"), "after");
    assert_eq!(strip_ansi("no escapes"), "no escapes");
}

#[test]
fn stripping_twice_changes_nothing_more() {
    let once = strip_ansi("\x1b[1;32mok\x1b[K\x1b]2;t\x1b\\ done");
    assert_eq!(strip_ansi(&once), once);
}
