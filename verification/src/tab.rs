//! Decisions about a tab: its title, when its shell's prompt is ready,
//! what is replayed into a restored terminal, and where its view scrolls.
use vstd::prelude::*;
use vstd::utf8::encode_utf8;

use crate::terminal::ssh::SshTabInfo;
use crate::text::{chars_of, occurs_at, contains_seq, trim_spec, trim_string};

verus! {

/// The title of a tab: the one its shell set, else `user@host` for a
/// remote shell, else the running program, else the directory's name,
/// else `"shell"`.
pub open spec fn tab_title_spec(
    osc_title: Seq<char>,
    ssh: Option<(Seq<char>, Seq<char>)>,
    foreground: Option<Seq<char>>,
    cwd_name: Option<Seq<char>>,
) -> Seq<char> {
    if osc_title.len() > 0 {
        osc_title
    } else {
        match ssh {
            Some((user, host)) => user + "@"@ + host,
            None => match foreground {
                Some(f) => f,
                None => match cwd_name {
                    Some(n) => n,
                    None => "shell"@,
                },
            },
        }
    }
}

/// [`tab_title_spec`], given the title the shell set, the remote host, the
/// name of the program in the foreground and the name of the working
/// directory, as far as they are known.
pub fn tab_title(
    osc_title: &str,
    ssh_info: Option<&SshTabInfo>,
    foreground: Option<String>,
    cwd_name: Option<String>,
) -> (r: String)
    ensures
        r@ == tab_title_spec(
            osc_title@,
            match ssh_info {
                Some(i) => Some((i.user@, i.host@)),
                None => None,
            },
            match foreground {
                Some(f) => Some(f@),
                None => None,
            },
            match cwd_name {
                Some(n) => Some(n@),
                None => None,
            },
        ),
{
    if !osc_title.is_empty() {
        return osc_title.to_owned();
    }
    match ssh_info {
        Some(info) => {
            let mut s = String::new();
            s.push_str(info.user.as_str());
            s.push_str("@");
            s.push_str(info.host.as_str());
            s
        },
        None => match foreground {
            Some(f) => f,
            None => match cwd_name {
                Some(n) => n,
                None => "shell".to_owned(),
            },
        },
    }
}

/// The sequence with which a shell turns on bracketed paste, as it does
/// when its prompt is ready.
pub open spec fn bracketed_paste_on() -> Seq<u8> {
    seq![0x1bu8, 0x5bu8, 0x3fu8, 0x32u8, 0x30u8, 0x30u8, 0x34u8, 0x68u8]
}

/// `needle` occurs in `hay` at `i`.
pub open spec fn bytes_at(hay: Seq<u8>, needle: Seq<u8>, i: int) -> bool {
    0 <= i && i + needle.len() <= hay.len() && hay.subrange(i, i + needle.len()) == needle
}

/// Whether new output shows that the prompt is ready: it turns on
/// bracketed paste.
pub fn prompt_ready(new_data: &[u8]) -> (r: bool)
    ensures
        r == exists|i: int| #[trigger] bytes_at(new_data@, bracketed_paste_on(), i),
{
    let pat: [u8; 8] = [0x1b, 0x5b, 0x3f, 0x32, 0x30, 0x30, 0x34, 0x68];
    let ghost p = bracketed_paste_on();
    assert(pat@ =~= p);
    if new_data.len() < 8 {
        assert forall|i: int| !#[trigger] bytes_at(new_data@, p, i) by {}
        return false;
    }
    let mut i: usize = 0;
    while i <= new_data.len() - 8
        invariant
            new_data@.len() == new_data.len(),
            new_data.len() >= 8,
            i <= new_data.len() - 7,
            pat@ == p,
            p == bracketed_paste_on(),
            forall|j: int| 0 <= j < i ==> !#[trigger] bytes_at(new_data@, p, j),
        decreases new_data.len() - i,
    {
        let mut k: usize = 0;
        let mut same = true;
        while k < 8
            invariant
                k <= 8,
                i + 8 <= new_data@.len(),
                new_data@.len() == new_data.len(),
                pat@ == p,
                same == (forall|m: int| 0 <= m < k ==> new_data@[i + m] == p[m]),
            decreases 8 - k,
        {
            same = same && new_data[i + k] == pat[k];
            k += 1;
        }
        if same {
            assert(new_data@.subrange(i as int, i + 8) =~= p);
            assert(bytes_at(new_data@, p, i as int));
            assert(bytes_at(new_data@, bracketed_paste_on(), i as int));
            return true;
        }
        proof {
            if bytes_at(new_data@, p, i as int) {
                assert forall|m: int| 0 <= m < 8 implies new_data@[i + m] == p[m] by {
                    assert(new_data@.subrange(i as int, i + 8)[m] == new_data@[i + m]);
                }
            }
        }
        i += 1;
    }
    proof {
        assert forall|j: int| !#[trigger] bytes_at(new_data@, p, j) by {
            if 0 <= j < i {
            }
        }
    }
    false
}

/// What is replayed into a terminal restored with scrollback: clear the
/// screen, each line followed by `"\r\n"`, reset the colors, then the
/// prompt the shell drew.
pub open spec fn replay_bytes(lines: Seq<Seq<char>>, prompt: Seq<u8>) -> Seq<u8> {
    seq![0x1bu8, 0x5bu8, 0x48u8, 0x1bu8, 0x5bu8, 0x4au8] + lines_bytes(lines) + seq![
        0x1bu8,
        0x5bu8,
        0x30u8,
        0x6du8,
    ] + prompt
}

/// The UTF-8 bytes of the lines, each followed by `"\r\n"`.
pub open spec fn lines_bytes(lines: Seq<Seq<char>>) -> Seq<u8>
    decreases lines.len(),
{
    if lines.len() == 0 {
        Seq::empty()
    } else {
        lines_bytes(lines.drop_last()) + encode_utf8(lines.last()) + seq![0x0du8, 0x0au8]
    }
}

fn push_bytes(out: &mut Vec<u8>, b: &[u8])
    ensures
        final(out)@ == old(out)@ + b@,
{
    let mut i: usize = 0;
    while i < b.len()
        invariant
            i <= b@.len(),
            b@.len() == b.len(),
            out@ == old(out)@ + b@.subrange(0, i as int),
        decreases b@.len() - i,
    {
        out.push(b[i]);
        assert(b@.subrange(0, i as int + 1) =~= b@.subrange(0, i as int).push(b@[i as int]));
        i += 1;
    }
    assert(b@.subrange(0, b@.len() as int) == b@);
}

/// The bytes replayed into a restored terminal, as [`replay_bytes`].
pub fn injection_bytes(lines: &[String], prompt: &[u8]) -> (r: Vec<u8>)
    ensures
        r@ == replay_bytes(crate::text::strings_view(lines@), prompt@),
{
    let mut out: Vec<u8> = Vec::new();
    out.push(0x1b);
    out.push(0x5b);
    out.push(0x48);
    out.push(0x1b);
    out.push(0x5b);
    out.push(0x4a);
    let ghost head = out@;
    let ghost lv = crate::text::strings_view(lines@);
    let mut i: usize = 0;
    while i < lines.len()
        invariant
            i <= lines@.len(),
            lines@.len() == lines.len(),
            lv == crate::text::strings_view(lines@),
            out@ == head + lines_bytes(lv.subrange(0, i as int)),
        decreases lines@.len() - i,
    {
        let ghost q = lv.subrange(0, i as int + 1);
        assert(q.drop_last() =~= lv.subrange(0, i as int));
        assert(q.last() == lines@[i as int]@);
        push_bytes(&mut out, lines[i].as_str().as_bytes());
        out.push(0x0d);
        out.push(0x0a);
        assert(out@ =~= head + lines_bytes(q));
        i += 1;
    }
    assert(lv.subrange(0, lv.len() as int) == lv);
    out.push(0x1b);
    out.push(0x5b);
    out.push(0x30);
    out.push(0x6d);
    push_bytes(&mut out, prompt);
    assert(out@ =~= replay_bytes(lv, prompt@));
    out
}

/// How far to scroll a restored terminal so that its view starts where
/// the saved one did: the saved offset less the offset of the bottom,
/// narrowed to `i32`.
pub open spec fn scroll_delta_spec(total: u64, len: u64, saved_offset: u64) -> i32 {
    let bottom: int = if total >= len {
        total - len
    } else {
        0
    };
    ((saved_offset as i64) as int - ((bottom as u64) as i64) as int) as i32
}

/// [`scroll_delta_spec`].
pub fn scroll_delta(total: u64, len: u64, saved_offset: u64) -> (r: i32)
    requires
        i64::MIN <= (saved_offset as i64) as int - ((if total >= len {
            total - len
        } else {
            0
        }) as u64 as i64) as int <= i64::MAX,
    ensures
        r == scroll_delta_spec(total, len, saved_offset),
{
    let bottom = total.saturating_sub(len) as i64;
    let delta = saved_offset as i64 - bottom;
    delta as i32
}

/// A title that marks a tab of a remote host as disconnected.
pub open spec fn is_disconnected_title(title: Seq<char>) -> bool {
    title.len() >= 14 && title.subrange(title.len() - 14, title.len() as int) == "(disconnected)"@
}

/// Whether a title marks its tab as disconnected.
pub fn disconnected_title(title: &str) -> (r: bool)
    ensures
        r == is_disconnected_title(title@),
{
    let v = chars_of(title);
    let m = chars_of("(disconnected)");
    proof {
        reveal_strlit("(disconnected)");
    }
    if v.len() < m.len() {
        return false;
    }
    let tail = crate::text::chars_range(&v, v.len() - m.len(), v.len());
    crate::text::seq_eq(&tail, &m)
}

/// Where a remote shell is, for display: its working directory when it
/// could be read; else a path after the first `':'` of its title, trimmed,
/// when it starts with `'/'` or `'~'`; else `"~"`.
pub open spec fn ssh_cwd_spec(cwd: Option<Seq<char>>, osc_title: Seq<char>) -> Seq<char> {
    match cwd {
        Some(c) => c,
        None => match crate::text::find_first(osc_title, seq![':']) {
            Some(p) => {
                let after = trim_spec(osc_title.subrange(p + 1, osc_title.len() as int));
                if after.len() > 0 && (after[0] == '/' || after[0] == '~') {
                    after
                } else {
                    "~"@
                }
            },
            None => "~"@,
        },
    }
}

/// [`ssh_cwd_spec`].
pub fn ssh_cwd_display(cwd: Option<String>, osc_title: &str) -> (r: String)
    ensures
        r@ == ssh_cwd_spec(
            match cwd {
                Some(c) => Some(c@),
                None => None,
            },
            osc_title@,
        ),
{
    match cwd {
        Some(c) => c,
        None => {
            let v = chars_of(osc_title);
            let colon: Vec<char> = vec![':'];
            assert(colon@ =~= seq![':']);
            match crate::text::find_first_exec(&v, &colon) {
                Some(p) => {
                    assert(occurs_at(v@, colon@, p as int));
                    assert(v@.len() == v.len());
                    let rest = crate::text::string_of(&crate::text::chars_range(&v, p + 1, v.len()));
                    let after = trim_string(rest.as_str());
                    let av = chars_of(after.as_str());
                    if av.len() > 0 && (av[0] == '/' || av[0] == '~') {
                        after
                    } else {
                        "~".to_owned()
                    }
                },
                None => "~".to_owned(),
            }
        },
    }
}

/// Whether the shell is gone after a read: at the end of its output or on
/// a failed read.
pub fn exited_after_read(result: crate::terminal::engine::PtyReadResult) -> (r: bool)
    ensures
        r == (result != crate::terminal::engine::PtyReadResult::Read),
{
    match result {
        crate::terminal::engine::PtyReadResult::Read => false,
        _ => true,
    }
}

/// What new output does to the timer that waits for a restored tab's
/// prompt to settle.
#[derive(Clone, Copy, Debug, PartialEq, Eq, Structural)]
pub enum PromptTimer {
    /// The prompt was drawn: start the timer and keep the output as the prompt.
    Start,
    /// Other output came: stop the timer.
    Stop,
    /// Nothing to do.
    Keep,
}

/// The timer's change for output read while scrollback waits to be
/// replayed (`pending`): only non-empty output counts, and it starts the
/// timer when it turns bracketed paste on.
pub open spec fn prompt_timer_spec(pending: bool, new_data: Seq<u8>) -> PromptTimer {
    if pending && new_data.len() > 0 {
        if exists|i: int| #[trigger] bytes_at(new_data, bracketed_paste_on(), i) {
            PromptTimer::Start
        } else {
            PromptTimer::Stop
        }
    } else {
        PromptTimer::Keep
    }
}

/// [`prompt_timer_spec`].
pub fn prompt_timer(pending: bool, new_data: &[u8]) -> (r: PromptTimer)
    ensures
        r == prompt_timer_spec(pending, new_data@),
{
    if pending && new_data.len() > 0 {
        if prompt_ready(new_data) {
            PromptTimer::Start
        } else {
            PromptTimer::Stop
        }
    } else {
        PromptTimer::Keep
    }
}

/// What is replayed once the prompt has settled: the saved lines, if there
/// are any, as [`replay_bytes`] with the last prompt drawn.
pub fn replay_for(pending: Option<Vec<String>>, last_prompt: &[u8]) -> (r: Option<Vec<u8>>)
    ensures
        match pending {
            Some(lines) if lines@.len() > 0 => r matches Some(b) && b@ == replay_bytes(
                crate::text::strings_view(lines@),
                last_prompt@,
            ),
            _ => r is None,
        },
{
    match pending {
        Some(lines) => {
            if lines.len() > 0 {
                Some(injection_bytes(lines.as_slice(), last_prompt))
            } else {
                None
            }
        },
        None => None,
    }
}

/// The bytes that write a saved scrollback into a terminal: each of its
/// lines followed by `"\r\n"`.
pub fn scrollback_bytes(scrollback: &str) -> (r: Vec<u8>)
    ensures
        r@ == lines_bytes(crate::text::lines_spec(scrollback@)),
{
    let lines = crate::text::lines_of(scrollback);
    let ghost lv = crate::text::lines_spec(scrollback@);
    let mut out: Vec<u8> = Vec::new();
    let mut i: usize = 0;
    while i < lines.len()
        invariant
            i <= lines@.len(),
            lines@.len() == lv.len(),
            forall|k: int| 0 <= k < lv.len() ==> (#[trigger] lines@[k])@ == lv[k],
            out@ == lines_bytes(lv.subrange(0, i as int)),
        decreases lines@.len() - i,
    {
        let ghost q = lv.subrange(0, i as int + 1);
        assert(q.drop_last() =~= lv.subrange(0, i as int));
        assert(q.last() == lv[i as int]);
        let line = crate::text::string_of(lines[i].as_slice());
        push_bytes(&mut out, line.as_str().as_bytes());
        out.push(0x0d);
        out.push(0x0a);
        assert(out@ =~= lines_bytes(q));
        i += 1;
    }
    assert(lv.subrange(0, lv.len() as int) == lv);
    out
}

} // verus!
