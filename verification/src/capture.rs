//! Running a command for the AI and reading back what it printed: the shell
//! script that brackets the command's output with hidden markers, and the
//! parsing of the captured output into the text and exit code that are
//! reported as the tool result.
use vstd::prelude::*;
use vstd::utf8::{decode_utf8, valid_utf8};

use crate::ansi::{strip_ansi, strip_ansi_spec};
use crate::text::{
    byte_prefix, chars_before_byte, chars_of, chars_range, dec_spec, find_first, find_first_exec,
    int_dec_spec, is_byte_boundary, lines_of, lines_spec, occurs_at, parse_i32, parse_i32_spec,
    push_decimal, push_signed_decimal, sat64, string_of, trim_bounds, trim_spec, utf8_len,
    utf8_len_sat,
};

verus! {

/// Output longer than this many bytes is cut in the tool result.
pub const OUTPUT_LIMIT: u64 = 4000;

/// A lower-case hexadecimal digit.
pub open spec fn is_lower_hex(c: char) -> bool {
    ('0' <= c && c <= '9') || ('a' <= c && c <= 'f')
}

/// The hyphenated lower-case form of a UUID: 36 characters, hyphens at
/// indices 8, 13, 18 and 23, hexadecimal digits elsewhere.
pub open spec fn is_hyphenated_uuid(s: Seq<char>) -> bool {
    &&& s.len() == 36
    &&& forall|i: int|
        0 <= i < 36 ==> if i == 8 || i == 13 || i == 18 || i == 23 {
            s[i] == '-'
        } else {
            is_lower_hex(#[trigger] s[i])
        }
}

/// An identifier that names the markers of one command: eight lower-case
/// hexadecimal digits.
pub open spec fn is_marker_id(s: Seq<char>) -> bool {
    s.len() == 8 && forall|i: int| 0 <= i < 8 ==> is_lower_hex(#[trigger] s[i])
}

/// `Uuid::new_v4` rendered with `to_string`: a random UUID in its
/// hyphenated lower-case form. Nothing is claimed of which digits come out.
#[verifier::external_body]
fn new_uuid_text() -> (r: String)
    ensures
        is_hyphenated_uuid(r@),
{
    uuid::Uuid::new_v4().to_string()
}

/// A fresh marker identifier: the first eight digits of a random UUID.
pub fn new_marker_id() -> (r: String)
    ensures
        is_marker_id(r@),
{
    let u = new_uuid_text();
    let v = chars_of(u.as_str());
    let r = chars_range(&v, 0, 8);
    proof {
        assert forall|i: int| 0 <= i < 8 implies is_lower_hex(#[trigger] r@[i]) by {
            assert(r@[i] == v@[i]);
        }
    }
    string_of(&r)
}

/// The text of `bytes` as `String::from_utf8_lossy` gives it.
pub uninterp spec fn lossy_text(bytes: Seq<u8>) -> Seq<char>;

/// `String::from_utf8_lossy`, made owned: the bytes read as UTF-8, with each
/// invalid sequence replaced by U+FFFD. Claimed: the result is a function of
/// the bytes, and bytes that are valid UTF-8 decode to exactly their text.
#[verifier::external_body]
fn utf8_lossy(bytes: &[u8]) -> (r: String)
    ensures
        r@ == lossy_text(bytes@),
        valid_utf8(bytes@) ==> r@ == decode_utf8(bytes@),
{
    String::from_utf8_lossy(bytes).into_owned()
}

/// Captured bytes read as text.
pub fn captured_text(bytes: &[u8]) -> (r: Vec<char>)
    ensures
        r@ == lossy_text(bytes@),
        valid_utf8(bytes@) ==> r@ == decode_utf8(bytes@),
{
    let s = utf8_lossy(bytes);
    chars_of(s.as_str())
}

/// A marker as it appears in the output: behind the escape that hides text.
pub open spec fn hidden(marker: Seq<char>) -> Seq<char> {
    "\x1b[8m"@ + marker
}

/// The marker printed before the command's output.
pub open spec fn start_marker(id: Seq<char>) -> Seq<char> {
    "TAI_S_"@ + id
}

/// The marker printed after the command's output, followed by its exit code.
pub open spec fn end_marker(id: Seq<char>) -> Seq<char> {
    "TAI_E_"@ + id + ":"@
}

/// Where the script of a command is written.
pub open spec fn script_path(id: Seq<char>) -> Seq<char> {
    "/tmp/tai_cmd_"@ + id
}

/// The script that runs `command` between the two hidden markers, prints
/// the exit code after the end marker, and removes itself.
pub open spec fn command_script(command: Seq<char>, id: Seq<char>) -> Seq<char> {
    "printf '\\e[8m"@ + start_marker(id) + "\\n\\e[28m'\n"@ + command
        + "\n__tai_ec=$?\nprintf '\\e[8m'\necho '"@ + end_marker(id)
        + "'\"$__tai_ec\"\nprintf '\\e[28m'\nrm -f "@ + script_path(id) + "\n"@
}

/// [`hidden`].
pub fn hidden_marker(marker: &str) -> (r: String)
    ensures
        r@ == hidden(marker@),
{
    let mut s = String::new();
    s.push_str("\x1b[8m");
    s.push_str(marker);
    s
}

/// [`start_marker`].
pub fn start_marker_text(id: &str) -> (r: String)
    ensures
        r@ == start_marker(id@),
{
    let mut s = String::new();
    s.push_str("TAI_S_");
    s.push_str(id);
    s
}

/// [`end_marker`].
pub fn end_marker_text(id: &str) -> (r: String)
    ensures
        r@ == end_marker(id@),
{
    let mut s = String::new();
    s.push_str("TAI_E_");
    s.push_str(id);
    s.push_str(":");
    s
}

/// [`script_path`].
pub fn script_path_text(id: &str) -> (r: String)
    ensures
        r@ == script_path(id@),
{
    let mut s = String::new();
    s.push_str("/tmp/tai_cmd_");
    s.push_str(id);
    s
}

/// [`command_script`].
pub fn command_script_text(command: &str, id: &str) -> (r: String)
    ensures
        r@ == command_script(command@, id@),
{
    let mut s = String::new();
    s.push_str("printf '\\e[8m");
    s.push_str(start_marker_text(id).as_str());
    s.push_str("\\n\\e[28m'\n");
    s.push_str(command);
    s.push_str("\n__tai_ec=$?\nprintf '\\e[8m'\necho '");
    s.push_str(end_marker_text(id).as_str());
    s.push_str("'\"$__tai_ec\"\nprintf '\\e[28m'\nrm -f ");
    s.push_str(script_path_text(id).as_str());
    s.push_str("\n");
    s
}

/// The first line of `s`, or nothing when it has none.
pub open spec fn first_line(s: Seq<char>) -> Seq<char> {
    if lines_spec(s).len() > 0 {
        lines_spec(s)[0]
    } else {
        Seq::empty()
    }
}

/// The exit code printed after the end marker: the first line after it,
/// without escape sequences and trimmed, read as an `i32`; `-1` when it
/// does not read as one.
pub open spec fn exit_code_of(after_end: Seq<char>) -> i32 {
    match parse_i32_spec(trim_spec(strip_ansi_spec(first_line(after_end)))) {
        Some(c) => c,
        None => -1i32,
    }
}

/// What follows the hidden start marker holds: the output before the first
/// hidden end marker, without escape sequences and trimmed, and the exit
/// code after it; without an end marker, no output and exit code `-1`.
pub open spec fn capture_after_start(after: Seq<char>, end: Seq<char>) -> (Seq<char>, i32) {
    match find_first(after, hidden(end)) {
        None => (Seq::empty(), -1i32),
        Some(ep) => (
            trim_spec(strip_ansi_spec(after.subrange(0, ep))),
            exit_code_of(after.subrange(ep + hidden(end).len(), after.len() as int)),
        ),
    }
}

/// What a capture holds: what follows the first hidden start marker, read
/// as [`capture_after_start`]; without a start marker, no output and exit
/// code `-1`.
pub open spec fn capture_parse(raw: Seq<char>, start: Seq<char>, end: Seq<char>) -> (Seq<char>, i32) {
    match find_first(raw, hidden(start)) {
        None => (Seq::empty(), -1i32),
        Some(sp) => capture_after_start(raw.subrange(sp + hidden(start).len(), raw.len() as int), end),
    }
}

fn trimmed_chars(v: &[char]) -> (r: Vec<char>)
    ensures
        r@ == trim_spec(v@),
{
    let (a, b) = trim_bounds(v);
    chars_range(v, a, b)
}

/// The exit code after the end marker, as [`exit_code_of`].
pub fn exit_code_text(after_end: &[char]) -> (r: i32)
    ensures
        r == exit_code_of(after_end@),
{
    let s = string_of(after_end);
    let lines = lines_of(s.as_str());
    let first = if lines.len() > 0 {
        string_of(lines[0].as_slice())
    } else {
        String::new()
    };
    assert(first@ == first_line(after_end@));
    let stripped = strip_ansi(first.as_str());
    let sv = chars_of(stripped.as_str());
    let t = trimmed_chars(&sv);
    match parse_i32(&t) {
        Some(c) => c,
        None => -1,
    }
}

fn parse_after_start(after: &[char], end: &str) -> (r: (String, i32))
    ensures
        (r.0@, r.1) == capture_after_start(after@, end@),
{
    let he = chars_of(hidden_marker(end).as_str());
    match find_first_exec(after, &he) {
        None => (String::new(), -1),
        Some(ep) => {
            assert(occurs_at(after@, he@, ep as int));
            assert(ep + he@.len() <= after@.len());
            assert(after@.len() == after.len());
            let between = string_of(&chars_range(after, 0, ep));
            let stripped = strip_ansi(between.as_str());
            let output = string_of(&trimmed_chars(&chars_of(stripped.as_str())));
            let after_end = chars_range(after, ep + he.len(), after.len());
            let code = exit_code_text(&after_end);
            (output, code)
        },
    }
}

/// Reads a capture as [`capture_parse`] does.
pub fn parse_capture(raw: &[char], start: &str, end: &str) -> (r: (String, i32))
    ensures
        (r.0@, r.1) == capture_parse(raw@, start@, end@),
{
    let hs = chars_of(hidden_marker(start).as_str());
    match find_first_exec(raw, &hs) {
        None => (String::new(), -1),
        Some(sp) => {
            assert(occurs_at(raw@, hs@, sp as int));
            assert(sp + hs@.len() <= raw@.len());
            assert(raw@.len() == raw.len());
            let after = chars_range(raw, sp + hs.len(), raw.len());
            parse_after_start(&after, end)
        },
    }
}

/// The output can be cut at [`OUTPUT_LIMIT`] bytes: it is no longer than
/// that, or that many bytes end at a character boundary.
pub open spec fn truncation_ok(output: Seq<char>) -> bool {
    utf8_len(output) > OUTPUT_LIMIT ==> is_byte_boundary(output, OUTPUT_LIMIT as nat)
}

/// Whether the output can be cut as [`truncation_ok`] asks.
pub fn truncation_fits(output: &str) -> (r: bool)
    ensures
        r == truncation_ok(output@),
{
    let n = utf8_len_sat(output);
    if n > OUTPUT_LIMIT {
        let v = chars_of(output);
        chars_before_byte(&v, OUTPUT_LIMIT).is_some()
    } else {
        true
    }
}

/// The output as reported: cut at [`OUTPUT_LIMIT`] bytes with a note of its
/// full length in bytes when it is longer.
pub open spec fn shown_output(output: Seq<char>) -> Seq<char> {
    if utf8_len(output) > OUTPUT_LIMIT {
        byte_prefix(output, OUTPUT_LIMIT as nat) + "\n... [truncated, "@ + dec_spec(
            sat64(utf8_len(output)) as nat,
        ) + " bytes total]"@
    } else {
        output
    }
}

/// The tool result reported for a command.
pub open spec fn capture_result_text(exit_code: i32, output: Seq<char>) -> Seq<char> {
    "Command output (exit code: "@ + int_dec_spec(exit_code as int) + "):\n"@ + shown_output(output)
}

/// The tool result for a command that exited with `exit_code` and printed
/// `output`.
pub fn capture_result(exit_code: i32, output: &str) -> (r: String)
    requires
        truncation_ok(output@),
    ensures
        r@ == capture_result_text(exit_code, output@),
{
    let n = utf8_len_sat(output);
    let mut r = String::new();
    r.push_str("Command output (exit code: ");
    push_signed_decimal(&mut r, exit_code as i64);
    r.push_str("):\n");
    if n > OUTPUT_LIMIT {
        let v = chars_of(output);
        let k = match chars_before_byte(&v, OUTPUT_LIMIT) {
            Some(k) => k,
            None => {
                proof {
                    assert(false);
                }
                0
            },
        };
        let cut = string_of(&chars_range(&v, 0, k));
        r.push_str(cut.as_str());
        r.push_str("\n... [truncated, ");
        push_decimal(&mut r, n);
        r.push_str(" bytes total]");
    } else {
        r.push_str(output);
    }
    r
}


/// What a command prints between the markers comes back as its output,
/// trimmed, when it prints no escape character, with the exit code read
/// from what follows the end marker.
pub proof fn lemma_capture_reads_output(
    start: Seq<char>,
    end: Seq<char>,
    body: Seq<char>,
    tail: Seq<char>,
)
    requires
        !body.contains(crate::ansi::ESC),
    ensures
        capture_parse(hidden(start) + body + hidden(end) + tail, start, end) == (
            trim_spec(body),
            exit_code_of(tail),
        ),
{
    reveal_strlit("\x1b[8m");
    let hs = hidden(start);
    let he = hidden(end);
    let raw = hs + body + he + tail;
    assert(raw.subrange(0, hs.len() as int) =~= hs);
    crate::text::lemma_find_first_at(raw, hs, 0);
    let after = raw.subrange(hs.len() as int, raw.len() as int);
    assert(after =~= body + he + tail);
    let k = body.len() as int;
    assert(after.subrange(k, k + he.len()) =~= he);
    assert forall|j: int| 0 <= j < k implies !occurs_at(after, he, j) by {
        if occurs_at(after, he, j) {
            assert(after.subrange(j, j + he.len())[0] == he[0]);
            assert(after[j] == body[j]);
            assert(body.contains(crate::ansi::ESC));
        }
    }
    crate::text::lemma_find_first_at(after, he, k);
    assert(after.subrange(0, k) =~= body);
    crate::ansi::lemma_strip_plain_text(body, 0);
    assert(body.subrange(0, body.len() as int) =~= body);
    assert(after.subrange(k + he.len(), after.len() as int) =~= tail);
}


/// The exit code printed after the end marker, a line of decimal digits,
/// reads back as that code.
pub proof fn lemma_exit_code_reads_back(code: nat, rest: Seq<char>)
    requires
        code <= i32::MAX,
    ensures
        exit_code_of(dec_spec(code) + seq!['\n'] + rest) == code as i32,
{
    let a = dec_spec(code);
    crate::text::lemma_dec_digits(code);
    assert(!a.contains('\n')) by {
        if a.contains('\n') {
            let i = choose|i: int| 0 <= i < a.len() && a[i] == '\n';
            assert(crate::text::is_digit(a[i]));
        }
    }
    assert(crate::text::is_digit(a.last())) by {
        assert(a.last() == a[a.len() - 1]);
    }
    crate::text::lemma_first_line(a, rest);
    assert(first_line(a + seq!['\n'] + rest) == a);
    assert(!a.contains(crate::ansi::ESC)) by {
        if a.contains(crate::ansi::ESC) {
            let i = choose|i: int| 0 <= i < a.len() && a[i] == crate::ansi::ESC;
            assert(crate::text::is_digit(a[i]));
        }
    }
    crate::ansi::lemma_strip_plain_text(a, 0);
    assert(a.subrange(0, a.len() as int) =~= a);
    assert(strip_ansi_spec(a) == a);
    assert(crate::text::is_digit(a[0]));
    crate::text::lemma_trim_unchanged(a);
    crate::text::lemma_parse_dec(code);
}

/// The output of a command run by its script comes back whole: what it
/// printed between the markers, trimmed, with no escape character in it,
/// and the exit code printed after the end marker.
pub proof fn lemma_capture_round_trip(
    start: Seq<char>,
    end: Seq<char>,
    body: Seq<char>,
    code: nat,
    rest: Seq<char>,
)
    requires
        !body.contains(crate::ansi::ESC),
        code <= i32::MAX,
    ensures
        capture_parse(
            hidden(start) + body + hidden(end) + dec_spec(code) + seq!['\n'] + rest,
            start,
            end,
        ) == (trim_spec(body), code as i32),
{
    let tail = dec_spec(code) + seq!['\n'] + rest;
    lemma_capture_reads_output(start, end, body, tail);
    lemma_exit_code_reads_back(code, rest);
    assert(hidden(start) + body + hidden(end) + dec_spec(code) + seq!['\n'] + rest =~= hidden(start)
        + body + hidden(end) + tail);
}

} // verus!
