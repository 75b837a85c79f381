//! Removal of terminal escape sequences from captured output.
use vstd::prelude::*;

use crate::text::{chars_of, string_of};

verus! {

/// The escape character.
pub const ESC: char = '\x1b';

/// The bell character, which ends an operating-system command.
pub const BEL: char = '\x07';

/// An ASCII letter.
pub open spec fn is_ascii_alpha(c: char) -> bool {
    ('a' <= c && c <= 'z') || ('A' <= c && c <= 'Z')
}

/// Index just past the end of a control sequence whose parameters start at
/// `j`: past the first letter or `'~'`, or the end of the text.
pub open spec fn csi_end(s: Seq<char>, j: int) -> int
    decreases s.len() - j,
{
    if j >= s.len() {
        s.len() as int
    } else if is_ascii_alpha(s[j]) || s[j] == '~' {
        j + 1
    } else {
        csi_end(s, j + 1)
    }
}

/// Index just past the end of an operating-system command whose text
/// starts at `j`: past a bell, or past an escape (and a `'\\'` right after
/// it), or the end of the text.
pub open spec fn osc_end(s: Seq<char>, j: int) -> int
    decreases s.len() - j,
{
    if j >= s.len() {
        s.len() as int
    } else if s[j] == BEL {
        j + 1
    } else if s[j] == ESC {
        if j + 1 < s.len() && s[j + 1] == '\\' {
            j + 2
        } else {
            j + 1
        }
    } else {
        osc_end(s, j + 1)
    }
}

pub proof fn lemma_ends_advance(s: Seq<char>, j: int)
    requires
        0 <= j <= s.len(),
    ensures
        j <= csi_end(s, j) <= s.len(),
        j <= osc_end(s, j) <= s.len(),
        j < s.len() ==> j < csi_end(s, j) && j < osc_end(s, j),
    decreases s.len() - j,
{
    if j < s.len() {
        lemma_ends_advance(s, j + 1);
    }
}

/// The characters of `s` from index `i` on, without escape sequences: an
/// escape followed by `'['` starts a control sequence, by `']'` an
/// operating-system command, and by anything else a two-character sequence.
pub open spec fn strip_from(s: Seq<char>, i: int) -> Seq<char>
    decreases s.len() - i,
{
    if i < 0 || i >= s.len() {
        Seq::empty()
    } else if s[i] != ESC {
        seq![s[i]] + strip_from(s, i + 1)
    } else if i + 1 >= s.len() {
        Seq::empty()
    } else if s[i + 1] == '[' {
        proof {
            lemma_ends_advance(s, i + 2);
        }
        strip_from(s, csi_end(s, i + 2))
    } else if s[i + 1] == ']' {
        proof {
            lemma_ends_advance(s, i + 2);
        }
        strip_from(s, osc_end(s, i + 2))
    } else {
        strip_from(s, i + 2)
    }
}

/// `s` without escape sequences.
pub open spec fn strip_ansi_spec(s: Seq<char>) -> Seq<char> {
    strip_from(s, 0)
}

fn csi_end_exec(v: &[char], j: usize) -> (r: usize)
    requires
        j <= v@.len(),
    ensures
        r == csi_end(v@, j as int),
    decreases v@.len() - j,
{
    let mut k = j;
    while k < v.len()
        invariant
            j <= k <= v@.len(),
            v@.len() == v.len(),
            csi_end(v@, k as int) == csi_end(v@, j as int),
        decreases v@.len() - k,
    {
        let c = v[k];
        if ('a' <= c && c <= 'z') || ('A' <= c && c <= 'Z') || c == '~' {
            return k + 1;
        }
        k += 1;
    }
    k
}

fn osc_end_exec(v: &[char], j: usize) -> (r: usize)
    requires
        j <= v@.len(),
    ensures
        r == osc_end(v@, j as int),
    decreases v@.len() - j,
{
    let mut k = j;
    while k < v.len()
        invariant
            j <= k <= v@.len(),
            v@.len() == v.len(),
            osc_end(v@, k as int) == osc_end(v@, j as int),
        decreases v@.len() - k,
    {
        let c = v[k];
        if c == BEL {
            return k + 1;
        }
        if c == ESC {
            if k + 1 < v.len() && v[k + 1] == '\\' {
                return k + 2;
            }
            return k + 1;
        }
        k += 1;
    }
    k
}

/// `s` with its escape sequences removed.
pub fn strip_ansi(s: &str) -> (r: String)
    ensures
        r@ == strip_ansi_spec(s@),
{
    let v = chars_of(s);
    let mut out: Vec<char> = Vec::new();
    let mut i: usize = 0;
    while i < v.len()
        invariant
            i <= v@.len(),
            v@.len() == v.len(),
            v@ == s@,
            out@ + strip_from(v@, i as int) == strip_ansi_spec(s@),
        decreases v@.len() - i,
    {
        let c = v[i];
        if c != ESC {
            let ghost prev = out@;
            out.push(c);
            assert(strip_from(v@, i as int) == seq![c] + strip_from(v@, i as int + 1));
            assert(out@ + strip_from(v@, i as int + 1) =~= prev + strip_from(v@, i as int));
            i += 1;
        } else if i + 1 >= v.len() {
            i = v.len();
        } else if v[i + 1] == '[' {
            proof {
                lemma_ends_advance(v@, i as int + 2);
            }
            i = csi_end_exec(&v, i + 2);
        } else if v[i + 1] == ']' {
            proof {
                lemma_ends_advance(v@, i as int + 2);
            }
            i = osc_end_exec(&v, i + 2);
        } else {
            i = i + 2;
        }
    }
    string_of(&out)
}

/// The output never holds an escape character.
pub proof fn lemma_strip_removes_escapes(s: Seq<char>, i: int)
    ensures
        !strip_from(s, i).contains(ESC),
    decreases s.len() - i,
{
    if 0 <= i < s.len() {
        if s[i] != ESC {
            lemma_strip_removes_escapes(s, i + 1);
            let r = strip_from(s, i);
            assert(r == seq![s[i]] + strip_from(s, i + 1));
            if r.contains(ESC) {
                let k = choose|k: int| 0 <= k < r.len() && r[k] == ESC;
                if k > 0 {
                    assert(strip_from(s, i + 1)[k - 1] == ESC);
                }
            }
        } else if i + 1 < s.len() {
            lemma_ends_advance(s, i + 2);
            if s[i + 1] == '[' {
                lemma_strip_removes_escapes(s, csi_end(s, i + 2));
            } else if s[i + 1] == ']' {
                lemma_strip_removes_escapes(s, osc_end(s, i + 2));
            } else {
                lemma_strip_removes_escapes(s, i + 2);
            }
        }
    }
}

/// Text without escape characters comes through unchanged.
pub proof fn lemma_strip_plain_text(s: Seq<char>, i: int)
    requires
        0 <= i <= s.len(),
        !s.contains(ESC),
    ensures
        strip_from(s, i) == s.subrange(i, s.len() as int),
    decreases s.len() - i,
{
    if i < s.len() {
        assert(s[i] != ESC);
        lemma_strip_plain_text(s, i + 1);
        assert(seq![s[i]] + s.subrange(i + 1, s.len() as int) =~= s.subrange(i, s.len() as int));
    } else {
        assert(s.subrange(i, s.len() as int) =~= Seq::<char>::empty());
    }
}


/// Removing escape sequences twice is removing them once.
pub proof fn lemma_strip_idempotent(s: Seq<char>)
    ensures
        strip_ansi_spec(strip_ansi_spec(s)) == strip_ansi_spec(s),
{
    let t = strip_ansi_spec(s);
    lemma_strip_removes_escapes(s, 0);
    lemma_strip_plain_text(t, 0);
    assert(t.subrange(0, t.len() as int) =~= t);
}

} // verus!
