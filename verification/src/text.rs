//! Character-level text helpers shared by the rest of the library: building
//! strings, searching, trimming, splitting into lines, and decimal numbers.
use vstd::prelude::*;

verus! {

broadcast use {vstd::seq_lib::group_seq_properties, vstd::slice::group_slice_axioms};

// ---------------------------------------------------------------------------
// Specifications for the `String` methods that the library relies on.
// ---------------------------------------------------------------------------

/// `String::push` appends one character to the end of the string.
pub assume_specification[ String::push ](s: &mut String, ch: char)
    ensures
        final(s)@ == old(s)@.push(ch),
;

/// `String::push_str` appends the characters of the slice to the end of the string.
pub assume_specification[ String::push_str ](s: &mut String, string: &str)
    ensures
        final(s)@ == old(s)@ + string@,
;

/// `String::pop` removes and returns the last character, or returns `None`
/// and leaves the string alone when it is empty.
pub assume_specification[ String::pop ](s: &mut String) -> (r: Option<char>)
    ensures
        old(s)@.len() == 0 ==> r is None && final(s)@ == old(s)@,
        old(s)@.len() > 0 ==> r == Some(old(s)@.last()) && final(s)@ == old(s)@.drop_last(),
;

/// `String::clear` empties the string.
pub assume_specification[ String::clear ](s: &mut String)
    ensures
        final(s)@ == Seq::<char>::empty(),
;

// ---------------------------------------------------------------------------
// Conversions between strings and character vectors.
// ---------------------------------------------------------------------------

/// Collects the characters of a string slice.
pub fn chars_of(s: &str) -> (v: Vec<char>)
    ensures
        v@ == s@,
{
    broadcast use vstd::string::group_string_axioms;

    let mut v: Vec<char> = Vec::new();
    for c in iter: s.chars()
        invariant
            v@ == iter.seq().subrange(0, iter.index() as int),
            iter.seq() == s@,
    {
        v.push(c);
    }
    v
}

/// Builds a string from a sequence of characters.
pub fn string_of(v: &[char]) -> (s: String)
    ensures
        s@ == v@,
{
    let mut s = String::new();
    let mut i: usize = 0;
    while i < v.len()
        invariant
            i <= v@.len(),
            s@ == v@.subrange(0, i as int),
        decreases v@.len() - i,
    {
        s.push(v[i]);
        i += 1;
    }
    s
}

/// Appends a run of characters to a string.
pub fn push_chars(s: &mut String, v: &[char])
    ensures
        final(s)@ == old(s)@ + v@,
{
    let mut i: usize = 0;
    while i < v.len()
        invariant
            i <= v@.len(),
            s@ == old(s)@ + v@.subrange(0, i as int),
        decreases v@.len() - i,
    {
        s.push(v[i]);
        i += 1;
    }
}

/// Copies the characters `v[from..to]` into a new string.
pub fn string_of_range(v: &[char], from: usize, to: usize) -> (s: String)
    requires
        from <= to <= v@.len(),
    ensures
        s@ == v@.subrange(from as int, to as int),
{
    let mut s = String::new();
    let mut i: usize = from;
    while i < to
        invariant
            from <= i <= to <= v@.len(),
            s@ == v@.subrange(from as int, i as int),
        decreases to - i,
    {
        s.push(v[i]);
        i += 1;
    }
    s
}

/// Copies the characters `v[from..to]` into a new vector.
pub fn chars_range(v: &[char], from: usize, to: usize) -> (r: Vec<char>)
    requires
        from <= to <= v@.len(),
    ensures
        r@ == v@.subrange(from as int, to as int),
{
    let mut r: Vec<char> = Vec::new();
    let mut i: usize = from;
    while i < to
        invariant
            from <= i <= to <= v@.len(),
            r@ == v@.subrange(from as int, i as int),
        decreases to - i,
    {
        r.push(v[i]);
        i += 1;
    }
    r
}

/// Whether two strings hold the same characters.
pub fn str_eq(a: &str, b: &str) -> (r: bool)
    ensures
        r == (a@ == b@),
{
    let x = chars_of(a);
    let y = chars_of(b);
    seq_eq(&x, &y)
}

/// Whether two character slices are equal.
pub fn seq_eq(x: &[char], y: &[char]) -> (r: bool)
    ensures
        r == (x@ == y@),
{
    if x.len() != y.len() {
        return false;
    }
    let mut i: usize = 0;
    while i < x.len()
        invariant
            x@.len() == y@.len(),
            i <= x@.len(),
            x@.subrange(0, i as int) == y@.subrange(0, i as int),
        decreases x@.len() - i,
    {
        if x[i] != y[i] {
            assert(x@[i as int] == x@.subrange(0, i as int + 1)[i as int]);
            return false;
        }
        assert(x@.subrange(0, i as int + 1) == x@.subrange(0, i as int).push(x@[i as int]));
        assert(y@.subrange(0, i as int + 1) == y@.subrange(0, i as int).push(y@[i as int]));
        i += 1;
    }
    assert(x@ == x@.subrange(0, x@.len() as int));
    assert(y@ == y@.subrange(0, y@.len() as int));
    true
}

// ---------------------------------------------------------------------------
// Whitespace and trimming (Unicode `White_Space`, as `char::is_whitespace`).
// ---------------------------------------------------------------------------

/// The Unicode `White_Space` property.
pub open spec fn is_white_space(c: char) -> bool {
    let u = c as u32;
    ||| (0x09 <= u && u <= 0x0d)
    ||| u == 0x20
    ||| u == 0x85
    ||| u == 0xa0
    ||| u == 0x1680
    ||| (0x2000 <= u && u <= 0x200a)
    ||| u == 0x2028
    ||| u == 0x2029
    ||| u == 0x202f
    ||| u == 0x205f
    ||| u == 0x3000
}

/// Executable form of [`is_white_space`].
pub fn is_whitespace_char(c: char) -> (r: bool)
    ensures
        r == is_white_space(c),
{
    let u = c as u32;
    (0x09 <= u && u <= 0x0d) || u == 0x20 || u == 0x85 || u == 0xa0 || u == 0x1680 || (0x2000
        <= u && u <= 0x200a) || u == 0x2028 || u == 0x2029 || u == 0x202f || u == 0x205f || u
        == 0x3000
}

/// `s` with trailing white space removed.
pub open spec fn trim_end_spec(s: Seq<char>) -> Seq<char>
    decreases s.len(),
{
    if s.len() > 0 && is_white_space(s.last()) {
        trim_end_spec(s.drop_last())
    } else {
        s
    }
}

/// `s` with leading white space removed.
pub open spec fn trim_start_spec(s: Seq<char>) -> Seq<char>
    decreases s.len(),
{
    if s.len() > 0 && is_white_space(s[0]) {
        trim_start_spec(s.drop_first())
    } else {
        s
    }
}

/// `s` with white space removed from both ends, as `str::trim`.
pub open spec fn trim_spec(s: Seq<char>) -> Seq<char> {
    trim_end_spec(trim_start_spec(s))
}

/// Number of leading white-space characters.
pub open spec fn leading_ws(s: Seq<char>) -> nat
    decreases s.len(),
{
    if s.len() > 0 && is_white_space(s[0]) {
        1 + leading_ws(s.drop_first())
    } else {
        0
    }
}

proof fn lemma_trim_start_skip(s: Seq<char>)
    ensures
        leading_ws(s) <= s.len(),
        trim_start_spec(s) == s.subrange(leading_ws(s) as int, s.len() as int),
        leading_ws(s) < s.len() ==> !is_white_space(s[leading_ws(s) as int]),
        forall|j: int| 0 <= j < leading_ws(s) ==> is_white_space(#[trigger] s[j]),
    decreases s.len(),
{
    if s.len() > 0 && is_white_space(s[0]) {
        lemma_trim_start_skip(s.drop_first());
        assert forall|j: int| 0 <= j < leading_ws(s) implies is_white_space(#[trigger] s[j]) by {
            if j > 0 {
                assert(s[j] == s.drop_first()[j - 1]);
            }
        }
    } else {
        assert(s.subrange(0, s.len() as int) == s);
    }
}

proof fn lemma_trim_end_prefix(s: Seq<char>, k: int)
    requires
        0 <= k <= s.len(),
        forall|j: int| k <= j < s.len() ==> is_white_space(#[trigger] s[j]),
        k == 0 || !is_white_space(s[k - 1]),
    ensures
        trim_end_spec(s) == s.subrange(0, k),
    decreases s.len(),
{
    if s.len() > k {
        assert(is_white_space(s[s.len() - 1]));
        assert forall|j: int| k <= j < s.drop_last().len() implies is_white_space(
            #[trigger] s.drop_last()[j],
        ) by {
            assert(s.drop_last()[j] == s[j]);
        }
        lemma_trim_end_prefix(s.drop_last(), k);
        assert(s.drop_last().subrange(0, k) == s.subrange(0, k));
    } else {
        assert(s.subrange(0, k) == s);
        if k > 0 {
            assert(s.last() == s[k - 1]);
        }
    }
}

/// Start and end index of the trimmed part of `v`.
pub fn trim_bounds(v: &[char]) -> (r: (usize, usize))
    ensures
        r.0 <= r.1 <= v@.len(),
        v@.subrange(r.0 as int, r.1 as int) == trim_spec(v@),
{
    proof {
        lemma_trim_start_skip(v@);
    }
    let mut a: usize = 0;
    while a < v.len() && is_whitespace_char(v[a])
        invariant
            a <= v@.len(),
            a <= leading_ws(v@),
            forall|j: int| 0 <= j < a ==> is_white_space(#[trigger] v@[j]),
            leading_ws(v@) <= v@.len(),
            leading_ws(v@) < v@.len() ==> !is_white_space(v@[leading_ws(v@) as int]),
        decreases v@.len() - a,
    {
        a += 1;
    }
    let ghost t = v@.subrange(a as int, v@.len() as int);
    assert(a == leading_ws(v@));
    assert(trim_start_spec(v@) == t);
    let mut b: usize = v.len();
    while b > a && is_whitespace_char(v[b - 1])
        invariant
            a <= b <= v@.len(),
            forall|j: int| b <= j < v@.len() ==> is_white_space(#[trigger] v@[j]),
        decreases b,
    {
        b -= 1;
    }
    proof {
        assert forall|j: int| (b - a) <= j < t.len() implies is_white_space(#[trigger] t[j]) by {
            assert(t[j] == v@[j + a]);
        }
        if b > a {
            assert(t[(b - a) - 1] == v@[b - 1]);
        }
        lemma_trim_end_prefix(t, (b - a) as int);
        assert(t.subrange(0, (b - a) as int) == v@.subrange(a as int, b as int));
    }
    (a, b)
}

/// `str::trim`, producing an owned string.
pub fn trim_string(s: &str) -> (r: String)
    ensures
        r@ == trim_spec(s@),
{
    let v = chars_of(s);
    let (a, b) = trim_bounds(&v);
    string_of_range(&v, a, b)
}

/// Index just past the last non-white-space character.
pub fn trim_end_len(v: &[char]) -> (n: usize)
    ensures
        n <= v@.len(),
        v@.subrange(0, n as int) == trim_end_spec(v@),
{
    let mut b: usize = v.len();
    while b > 0 && is_whitespace_char(v[b - 1])
        invariant
            b <= v@.len(),
            forall|j: int| b <= j < v@.len() ==> is_white_space(#[trigger] v@[j]),
        decreases b,
    {
        b -= 1;
    }
    proof {
        lemma_trim_end_prefix(v@, b as int);
    }
    b
}

// ---------------------------------------------------------------------------
// Searching.
// ---------------------------------------------------------------------------

/// `needle` occurs in `hay` starting at index `i`.
pub open spec fn occurs_at(hay: Seq<char>, needle: Seq<char>, i: int) -> bool {
    0 <= i && i + needle.len() <= hay.len() && hay.subrange(i, i + needle.len()) == needle
}

/// `needle` occurs somewhere in `hay`.
pub open spec fn contains_seq(hay: Seq<char>, needle: Seq<char>) -> bool {
    exists|i: int| occurs_at(hay, needle, i)
}

/// Whether `needle` occurs in `hay` at index `i` (executable).
pub fn matches_at(hay: &[char], needle: &[char], i: usize) -> (r: bool)
    ensures
        r == occurs_at(hay@, needle@, i as int),
{
    if i > hay.len() || needle.len() > hay.len() - i {
        return false;
    }
    let mut k: usize = 0;
    while k < needle.len()
        invariant
            i + needle@.len() <= hay@.len(),
            hay@.len() == hay.len(),
            k <= needle@.len(),
            forall|j: int| 0 <= j < k ==> hay@[i + j] == needle@[j],
        decreases needle@.len() - k,
    {
        let at: usize = i + k;
        if hay[at] != needle[k] {
            assert(hay@.subrange(i as int, i + needle@.len())[k as int] == hay@[i + k]);
            return false;
        }
        k += 1;
    }
    assert(hay@.subrange(i as int, i + needle@.len()) =~= needle@);
    true
}

/// First index at which `needle` occurs in `hay`, as `str::find`.
pub fn find_seq(hay: &[char], needle: &[char]) -> (r: Option<usize>)
    ensures
        r matches Some(i) ==> occurs_at(hay@, needle@, i as int) && forall|j: int|
            0 <= j < i ==> !occurs_at(hay@, needle@, j),
        r is None ==> !contains_seq(hay@, needle@),
{
    if needle.len() > hay.len() {
        return None;
    }
    let limit: usize = hay.len() - needle.len();
    let mut i: usize = 0;
    loop
        invariant
            limit == hay@.len() - needle@.len(),
            hay@.len() == hay.len(),
            i <= limit,
            forall|j: int| 0 <= j < i ==> !occurs_at(hay@, needle@, j),
        ensures
            forall|j: int| 0 <= j <= limit ==> !occurs_at(hay@, needle@, j),
        decreases limit - i,
    {
        if matches_at(hay, needle, i) {
            return Some(i);
        }
        if i == limit {
            break;
        }
        i += 1;
    }
    assert forall|j: int| !occurs_at(hay@, needle@, j) by {
        if j > limit {
        }
    }
    None
}

// ---------------------------------------------------------------------------
// Splitting.
// ---------------------------------------------------------------------------

/// Pieces of `s` between occurrences of `sep`, as `str::split` with a char
/// pattern: one more piece than there are separators.
pub open spec fn split_spec(s: Seq<char>, sep: char) -> Seq<Seq<char>>
    decreases s.len(),
{
    if s.len() == 0 {
        seq![Seq::<char>::empty()]
    } else {
        let prev = split_spec(s.drop_last(), sep);
        if s.last() == sep {
            prev.push(Seq::<char>::empty())
        } else {
            prev.update(prev.len() - 1, prev.last().push(s.last()))
        }
    }
}

pub proof fn lemma_split_nonempty(s: Seq<char>, sep: char)
    ensures
        split_spec(s, sep).len() >= 1,
    decreases s.len(),
{
    if s.len() > 0 {
        lemma_split_nonempty(s.drop_last(), sep);
    }
}

/// Splits `v` at every `sep`.
pub fn split_chars(v: &[char], sep: char) -> (r: Vec<Vec<char>>)
    ensures
        r@.len() == split_spec(v@, sep).len(),
        forall|i: int| 0 <= i < r@.len() ==> (#[trigger] r@[i])@ == split_spec(v@, sep)[i],
{
    let mut done: Vec<Vec<char>> = Vec::new();
    let mut cur: Vec<char> = Vec::new();
    let mut i: usize = 0;
    while i < v.len()
        invariant
            i <= v@.len(),
            split_spec(v@.subrange(0, i as int), sep).len() == done@.len() + 1,
            forall|k: int|
                0 <= k < done@.len() ==> (#[trigger] done@[k])@ == split_spec(
                    v@.subrange(0, i as int),
                    sep,
                )[k],
            cur@ == split_spec(v@.subrange(0, i as int), sep).last(),
        decreases v@.len() - i,
    {
        let ghost p = v@.subrange(0, i as int);
        let ghost q = v@.subrange(0, i as int + 1);
        assert(q.drop_last() == p);
        assert(q.last() == v@[i as int]);
        proof {
            lemma_split_nonempty(p, sep);
        }
        let c = v[i];
        if c == sep {
            let finished = cur;
            done.push(finished);
            cur = Vec::new();
        } else {
            cur.push(c);
        }
        i += 1;
    }
    assert(v@.subrange(0, v@.len() as int) == v@);
    done.push(cur);
    done
}

/// The pieces that `str::lines` yields: a piece ends at each `'\n'`, which
/// is removed together with a `'\r'` just before it; a final empty piece
/// (after a trailing newline, or of the empty string) is not a line.
pub open spec fn lines_spec(s: Seq<char>) -> Seq<Seq<char>> {
    let parts = split_spec(s, '\n');
    let n = parts.len() - 1;
    let terminated = Seq::new(n as nat, |i: int| strip_cr(parts[i]));
    if parts.last().len() == 0 {
        terminated
    } else {
        terminated.push(parts.last())
    }
}

/// A trailing `'\r'` removed, if there is one.
pub open spec fn strip_cr(p: Seq<char>) -> Seq<char> {
    if p.len() > 0 && p.last() == '\r' {
        p.drop_last()
    } else {
        p
    }
}

/// Executable [`strip_cr`].
pub fn strip_cr_vec(p: Vec<char>) -> (r: Vec<char>)
    ensures
        r@ == strip_cr(p@),
{
    let mut p = p;
    if p.len() > 0 && p[p.len() - 1] == '\r' {
        p.pop();
    }
    p
}

/// Lines of a string, as `str::lines`.
pub fn lines_of(s: &str) -> (r: Vec<Vec<char>>)
    ensures
        r@.len() == lines_spec(s@).len(),
        forall|i: int| 0 <= i < r@.len() ==> (#[trigger] r@[i])@ == lines_spec(s@)[i],
{
    let v = chars_of(s);
    let parts = split_chars(&v, '\n');
    proof {
        lemma_split_nonempty(v@, '\n');
    }
    let ghost sp = split_spec(s@, '\n');
    let n = parts.len() - 1;
    let mut out: Vec<Vec<char>> = Vec::new();
    let mut i: usize = 0;
    while i < n
        invariant
            n == parts@.len() - 1,
            parts@.len() == sp.len(),
            forall|k: int| 0 <= k < parts@.len() ==> (#[trigger] parts@[k])@ == sp[k],
            i <= n,
            out@.len() == i,
            forall|k: int| 0 <= k < i ==> (#[trigger] out@[k])@ == strip_cr(sp[k]),
        decreases n - i,
    {
        let p = parts[i].clone();
        out.push(strip_cr_vec(p));
        i += 1;
    }
    let last = parts[n].clone();
    assert(last@ == sp.last());
    if last.len() > 0 {
        out.push(last);
    }
    assert(out@.len() == lines_spec(s@).len());
    out
}

// ---------------------------------------------------------------------------
// Decimal numbers.
// ---------------------------------------------------------------------------

/// The ASCII digit for `d < 10`.
pub open spec fn digit_char(d: nat) -> char {
    (48 + d) as char
}

/// Decimal representation of a natural number, as `Display` writes it.
pub open spec fn dec_spec(n: nat) -> Seq<char>
    decreases n,
{
    if n < 10 {
        seq![digit_char(n)]
    } else {
        dec_spec(n / 10).push(digit_char(n % 10))
    }
}

/// Decimal representation of an integer, with `'-'` before a negative one.
pub open spec fn int_dec_spec(i: int) -> Seq<char> {
    if i < 0 {
        seq!['-'] + dec_spec((-i) as nat)
    } else {
        dec_spec(i as nat)
    }
}

fn digit(d: u64) -> (c: char)
    requires
        d < 10,
    ensures
        c == digit_char(d as nat),
{
    match d {
        0 => '0',
        1 => '1',
        2 => '2',
        3 => '3',
        4 => '4',
        5 => '5',
        6 => '6',
        7 => '7',
        8 => '8',
        _ => '9',
    }
}

/// Appends the decimal form of `n`.
pub fn push_decimal(s: &mut String, n: u64)
    ensures
        final(s)@ == old(s)@ + dec_spec(n as nat),
    decreases n,
{
    if n >= 10 {
        push_decimal(s, n / 10);
    }
    s.push(digit(n % 10));
    proof {
        if n >= 10 {
            assert(old(s)@ + dec_spec(n as nat) == (old(s)@ + dec_spec((n / 10) as nat)).push(
                digit_char((n % 10) as nat),
            ));
        } else {
            assert(dec_spec(n as nat) == seq![digit_char(n as nat)]);
        }
    }
}

/// Appends the decimal form of a signed number.
pub fn push_signed_decimal(s: &mut String, i: i64)
    ensures
        final(s)@ == old(s)@ + int_dec_spec(i as int),
{
    if i < 0 {
        s.push('-');
        let m: u64 = if i == i64::MIN {
            9223372036854775808u64
        } else {
            (-i) as u64
        };
        push_decimal(s, m);
        assert(old(s)@ + int_dec_spec(i as int) == old(s)@.push('-') + dec_spec(m as nat));
    } else {
        push_decimal(s, i as u64);
    }
}

/// The decimal form of `n` as a new string.
pub fn decimal_string(n: u64) -> (r: String)
    ensures
        r@ == dec_spec(n as nat),
{
    let mut s = String::new();
    push_decimal(&mut s, n);
    s
}

// ---------------------------------------------------------------------------
// Parsing a signed 32-bit integer, as `str::parse::<i32>`.
// ---------------------------------------------------------------------------

/// `c` is an ASCII decimal digit.
pub open spec fn is_digit(c: char) -> bool {
    '0' <= c && c <= '9'
}

/// Value of a run of ASCII digits.
pub open spec fn digits_value(d: Seq<char>) -> nat
    decreases d.len(),
{
    if d.len() == 0 {
        0
    } else {
        digits_value(d.drop_last()) * 10 + ((d.last() as nat) - 48) as nat
    }
}

/// The digits after an optional `'+'` or `'-'` sign.
pub open spec fn unsigned_part(s: Seq<char>) -> Seq<char> {
    if s.len() > 0 && (s[0] == '+' || s[0] == '-') {
        s.drop_first()
    } else {
        s
    }
}

/// Every character is an ASCII digit.
pub open spec fn all_digits(d: Seq<char>) -> bool {
    forall|i: int| 0 <= i < d.len() ==> is_digit(#[trigger] d[i])
}

/// What `str::parse::<i32>` gives: `Some` of the value when `s` is an
/// optional sign followed by at least one ASCII digit and the value fits.
pub open spec fn parse_i32_spec(s: Seq<char>) -> Option<i32> {
    let d = unsigned_part(s);
    let neg = s.len() > 0 && s[0] == '-';
    if d.len() == 0 || !all_digits(d) {
        None
    } else {
        let v: int = if neg {
            -(digits_value(d) as int)
        } else {
            digits_value(d) as int
        };
        if i32::MIN <= v && v <= i32::MAX {
            Some(v as i32)
        } else {
            None
        }
    }
}

pub proof fn lemma_digits_value_mono(d: Seq<char>, k: int)
    requires
        0 <= k <= d.len(),
        forall|i: int| 0 <= i < d.len() ==> is_digit(#[trigger] d[i]),
    ensures
        digits_value(d.subrange(0, k)) <= digits_value(d),
    decreases d.len() - k,
{
    if k < d.len() {
        lemma_digits_value_mono(d, k + 1);
        let p = d.subrange(0, k + 1);
        assert(p.drop_last() == d.subrange(0, k));
    } else {
        assert(d.subrange(0, k) == d);
    }
}

/// `str::parse::<i32>`.
pub fn parse_i32(v: &[char]) -> (r: Option<i32>)
    ensures
        r == parse_i32_spec(v@),
{
    let mut start: usize = 0;
    let mut neg = false;
    if v.len() > 0 && (v[0] == '+' || v[0] == '-') {
        start = 1;
        neg = v[0] == '-';
    }
    let ghost d = unsigned_part(v@);
    assert(d == v@.subrange(start as int, v@.len() as int));
    if start >= v.len() {
        return None;
    }
    let mut acc: u64 = 0;
    let mut i: usize = start;
    while i < v.len()
        invariant
            1 <= start + 1 <= i + 1,
            start <= i <= v@.len(),
            v@.len() == v.len(),
            neg == (v@.len() > 0 && v@[0] == '-'),
            d == v@.subrange(start as int, v@.len() as int),
            d == unsigned_part(v@),
            d.len() > 0,
            forall|j: int| 0 <= j < i - start ==> is_digit(#[trigger] d[j]),
            acc == digits_value(d.subrange(0, i - start)),
            acc <= 2147483648,
        decreases v@.len() - i,
    {
        let c = v[i];
        if !('0' <= c && c <= '9') {
            assert(d[i - start] == c);
            assert(!is_digit(d[i - start]));
            return None;
        }
        let dv = (c as u64) - 48;
        let ghost p = d.subrange(0, i - start + 1);
        assert(p.drop_last() == d.subrange(0, i - start));
        assert(p.last() == c);
        let next = acc * 10 + dv;
        if next > 2147483648 {
            // Every further digit only makes the value larger.
            let mut j: usize = i + 1;
            while j < v.len()
                invariant
                    start <= i < j <= v@.len(),
                    v@.len() == v.len(),
                    forall|k: int| 0 <= k < j - start ==> is_digit(#[trigger] d[k]),
                    d == v@.subrange(start as int, v@.len() as int),
                    d == unsigned_part(v@),
                    digits_value(d.subrange(0, i - start + 1)) > 2147483648,
                decreases v@.len() - j,
            {
                if !('0' <= v[j] && v[j] <= '9') {
                    assert(d[j - start] == v@[j as int]);
                    assert(!is_digit(d[j - start]));
                    return None;
                }
                j += 1;
            }
            proof {
                lemma_digits_value_mono(d, i - start + 1);
            }
            assert(digits_value(d) > 2147483648);
            return None;
        }
        acc = next;
        i += 1;
    }
    assert(d.subrange(0, i - start) == d);
    if neg {
        Some((0i64 - acc as i64) as i32)
    } else if acc > 2147483647 {
        None
    } else {
        Some(acc as i32)
    }
}

// ---------------------------------------------------------------------------
// UTF-8 lengths.
// ---------------------------------------------------------------------------

/// Number of bytes of the UTF-8 encoding of `c`.
pub open spec fn char_width(c: char) -> nat {
    let u = c as u32;
    if u < 0x80 {
        1
    } else if u < 0x800 {
        2
    } else if u < 0x10000 {
        3
    } else {
        4
    }
}

/// Number of bytes of the UTF-8 encoding of `s`, as `str::len`.
pub open spec fn utf8_len(s: Seq<char>) -> nat
    decreases s.len(),
{
    if s.len() == 0 {
        0
    } else {
        utf8_len(s.drop_last()) + char_width(s.last())
    }
}

/// `min(x, u64::MAX)`.
pub open spec fn sat64(x: nat) -> u64 {
    if x > u64::MAX {
        u64::MAX
    } else {
        x as u64
    }
}

/// Width in bytes of the UTF-8 encoding of one character.
pub fn char_utf8_width(c: char) -> (r: u64)
    ensures
        r == char_width(c),
{
    let u = c as u32;
    if u < 0x80 {
        1
    } else if u < 0x800 {
        2
    } else if u < 0x10000 {
        3
    } else {
        4
    }
}

/// The UTF-8 length of a string, saturated at `u64::MAX`.
pub fn utf8_len_sat(s: &str) -> (r: u64)
    ensures
        r == sat64(utf8_len(s@)),
{
    let v = chars_of(s);
    let mut acc: u64 = 0;
    let mut i: usize = 0;
    while i < v.len()
        invariant
            i <= v@.len(),
            v@ == s@,
            acc == sat64(utf8_len(v@.subrange(0, i as int))),
        decreases v@.len() - i,
    {
        let ghost p = v@.subrange(0, i as int + 1);
        assert(p.drop_last() == v@.subrange(0, i as int));
        acc = acc.saturating_add(char_utf8_width(v[i]));
        i += 1;
    }
    assert(v@.subrange(0, v@.len() as int) == v@);
    acc
}

// ---------------------------------------------------------------------------
// Joining.
// ---------------------------------------------------------------------------

/// The parts with `sep` between consecutive ones, as `join`.
pub open spec fn join_spec(parts: Seq<Seq<char>>, sep: Seq<char>) -> Seq<char>
    decreases parts.len(),
{
    if parts.len() == 0 {
        Seq::empty()
    } else if parts.len() == 1 {
        parts[0]
    } else {
        join_spec(parts.drop_last(), sep) + sep + parts.last()
    }
}

/// Views of a sequence of strings.
pub open spec fn strings_view(v: Seq<String>) -> Seq<Seq<char>> {
    v.map_values(|s: String| s@)
}

/// Views of a sequence of character vectors.
pub open spec fn char_vecs_view(v: Seq<Vec<char>>) -> Seq<Seq<char>> {
    v.map_values(|s: Vec<char>| s@)
}

/// Joins `parts[from..]` with `sep` between them.
pub fn join_char_vecs(parts: &[Vec<char>], from: usize, sep: &str) -> (r: String)
    requires
        from <= parts@.len(),
    ensures
        r@ == join_spec(char_vecs_view(parts@.subrange(from as int, parts@.len() as int)), sep@),
{
    let mut s = String::new();
    let mut i: usize = from;
    while i < parts.len()
        invariant
            from <= i <= parts@.len(),
            parts@.len() == parts.len(),
            s@ == join_spec(char_vecs_view(parts@.subrange(from as int, i as int)), sep@),
        decreases parts@.len() - i,
    {
        let ghost before = char_vecs_view(parts@.subrange(from as int, i as int));
        let ghost after = char_vecs_view(parts@.subrange(from as int, i as int + 1));
        assert(after =~= before.push(parts@[i as int]@));
        assert(after.drop_last() == before);
        if i > from {
            s.push_str(sep);
        }
        push_chars(&mut s, parts[i].as_slice());
        i += 1;
    }
    s
}

/// Joins strings with `sep` between them.
pub fn join_strings(parts: &[String], sep: &str) -> (r: String)
    ensures
        r@ == join_spec(strings_view(parts@), sep@),
{
    let mut s = String::new();
    let mut i: usize = 0;
    while i < parts.len()
        invariant
            i <= parts@.len(),
            parts@.len() == parts.len(),
            s@ == join_spec(strings_view(parts@.subrange(0, i as int)), sep@),
        decreases parts@.len() - i,
    {
        let ghost before = strings_view(parts@.subrange(0, i as int));
        let ghost after = strings_view(parts@.subrange(0, i as int + 1));
        assert(after =~= before.push(parts@[i as int]@));
        assert(after.drop_last() == before);
        if i > 0 {
            s.push_str(sep);
        }
        s.push_str(parts[i].as_str());
        i += 1;
    }
    assert(parts@.subrange(0, parts@.len() as int) == parts@);
    s
}

// ---------------------------------------------------------------------------
// More searching, replacing, and byte prefixes.
// ---------------------------------------------------------------------------

/// The first index at which `needle` occurs in `hay`, as `str::find`.
#[verifier::opaque]
pub open spec fn find_first(hay: Seq<char>, needle: Seq<char>) -> Option<int> {
    if contains_seq(hay, needle) {
        Some(
            choose|i: int|
                occurs_at(hay, needle, i) && forall|j: int| 0 <= j < i ==> !occurs_at(hay, needle, j),
        )
    } else {
        None
    }
}

/// The first occurrence is where `needle` occurs with no occurrence before.
pub proof fn lemma_find_first_at(hay: Seq<char>, needle: Seq<char>, k: int)
    requires
        occurs_at(hay, needle, k),
        forall|j: int| 0 <= j < k ==> !occurs_at(hay, needle, j),
    ensures
        find_first(hay, needle) == Some(k),
{
    reveal(find_first);
    assert(contains_seq(hay, needle));
    let c = choose|i: int|
        occurs_at(hay, needle, i) && forall|j: int| 0 <= j < i ==> !occurs_at(hay, needle, j);
    assert(occurs_at(hay, needle, k) && forall|j: int| 0 <= j < k ==> !occurs_at(hay, needle, j));
    if c < k {
        assert(!occurs_at(hay, needle, c));
    }
    if k < c {
        assert(!occurs_at(hay, needle, k));
    }
}

/// `str::find`, stated with [`find_first`].
pub fn find_first_exec(hay: &[char], needle: &[char]) -> (r: Option<usize>)
    ensures
        match (r, find_first(hay@, needle@)) {
            (Some(i), Some(j)) => i == j,
            (None, None) => true,
            _ => false,
        },
        r matches Some(i) ==> occurs_at(hay@, needle@, i as int),
        r is Some <==> contains_seq(hay@, needle@),
{
    let r = find_seq(hay, needle);
    proof {
        reveal(find_first);
        if let Some(i) = r {
            let ii = i as int;
            assert(occurs_at(hay@, needle@, ii));
            assert(contains_seq(hay@, needle@));
            let k = choose|k: int|
                occurs_at(hay@, needle@, k) && forall|j: int| 0 <= j < k ==> !occurs_at(hay@, needle@, j);
            assert(occurs_at(hay@, needle@, ii) && forall|j: int|
                0 <= j < ii ==> !occurs_at(hay@, needle@, j));
            if k < ii {
                assert(!occurs_at(hay@, needle@, k));
            }
            if ii < k {
                assert(!occurs_at(hay@, needle@, ii));
            }
        }
    }
    r
}

/// Each `'\n'` of `s` replaced by `rep`.
pub open spec fn replace_newlines(s: Seq<char>, rep: Seq<char>) -> Seq<char>
    decreases s.len(),
{
    if s.len() == 0 {
        Seq::empty()
    } else {
        replace_newlines(s.drop_last(), rep) + if s.last() == '\n' {
            rep
        } else {
            seq![s.last()]
        }
    }
}

/// Appends `s` with each newline replaced by `rep`.
pub fn push_replacing_newlines(out: &mut String, s: &str, rep: &str)
    ensures
        final(out)@ == old(out)@ + replace_newlines(s@, rep@),
{
    let v = chars_of(s);
    let mut i: usize = 0;
    while i < v.len()
        invariant
            i <= v@.len(),
            v@ == s@,
            v@.len() == v.len(),
            out@ == old(out)@ + replace_newlines(v@.subrange(0, i as int), rep@),
        decreases v@.len() - i,
    {
        let ghost p = v@.subrange(0, i as int + 1);
        assert(p.drop_last() == v@.subrange(0, i as int));
        assert(p.last() == v@[i as int]);
        if v[i] == '\n' {
            out.push_str(rep);
        } else {
            out.push(v[i]);
        }
        i += 1;
    }
    assert(v@.subrange(0, v@.len() as int) == v@);
}

pub proof fn lemma_utf8_len_prefix_mono(s: Seq<char>, a: int, b: int)
    requires
        0 <= a <= b <= s.len(),
    ensures
        utf8_len(s.subrange(0, a)) + (b - a) <= utf8_len(s.subrange(0, b)),
    decreases b - a,
{
    if a < b {
        lemma_utf8_len_prefix_mono(s, a, b - 1);
        assert(s.subrange(0, b).drop_last() == s.subrange(0, b - 1));
    }
}

/// There is a prefix of `s` whose UTF-8 length is exactly `n`: `n` is a
/// character boundary.
pub open spec fn is_byte_boundary(s: Seq<char>, n: nat) -> bool {
    exists|k: int| 0 <= k <= s.len() && utf8_len(#[trigger] s.subrange(0, k)) == n
}

/// The prefix of `s` that ends at byte `n` (meaningful at a boundary).
pub open spec fn byte_prefix(s: Seq<char>, n: nat) -> Seq<char> {
    s.subrange(0, choose|k: int| 0 <= k <= s.len() && utf8_len(#[trigger] s.subrange(0, k)) == n)
}

/// Number of characters before byte `n` of `s`, when `n` is a boundary.
pub fn chars_before_byte(s: &[char], n: u64) -> (r: Option<usize>)
    ensures
        match r {
            Some(k) => k <= s@.len() && utf8_len(s@.subrange(0, k as int)) == n
                && byte_prefix(s@, n as nat) == s@.subrange(0, k as int),
            None => !is_byte_boundary(s@, n as nat),
        },
{
    let mut acc: u64 = 0;
    let mut k: usize = 0;
    while k < s.len() && acc < n
        invariant
            k <= s@.len(),
            s@.len() == s.len(),
            acc == utf8_len(s@.subrange(0, k as int)),
            acc <= n,
        decreases s@.len() - k,
    {
        let ghost p = s@.subrange(0, k as int + 1);
        assert(p.drop_last() == s@.subrange(0, k as int));
        let w = char_utf8_width(s[k]);
        if w > n - acc {
            proof {
                assert forall|j: int| 0 <= j <= s@.len() implies utf8_len(
                    #[trigger] s@.subrange(0, j),
                ) != n by {
                    if j <= k {
                        lemma_utf8_len_prefix_mono(s@, j, k as int);
                        if j < k {
                            lemma_utf8_len_prefix_mono(s@, j, k as int);
                        }
                        if j == k {
                        } else {
                            assert(utf8_len(s@.subrange(0, j)) < n);
                        }
                    } else {
                        lemma_utf8_len_prefix_mono(s@, k as int + 1, j);
                    }
                }
            }
            return None;
        }
        acc = acc + w;
        k += 1;
    }
    if acc == n {
        proof {
            let kk = k as int;
            assert(0 <= kk <= s@.len() && utf8_len(s@.subrange(0, kk)) == n);
            let c = choose|c: int| 0 <= c <= s@.len() && utf8_len(#[trigger] s@.subrange(0, c)) == n;
            if c < kk {
                lemma_utf8_len_prefix_mono(s@, c, kk);
            }
            if kk < c {
                lemma_utf8_len_prefix_mono(s@, kk, c);
            }
        }
        Some(k)
    } else {
        proof {
            assert(k == s@.len());
            assert(s@.subrange(0, k as int) == s@);
            assert forall|j: int| 0 <= j <= s@.len() implies utf8_len(
                #[trigger] s@.subrange(0, j),
            ) != n by {
                if j < k {
                    lemma_utf8_len_prefix_mono(s@, j, k as int);
                }
            }
        }
        None
    }
}


// ---------------------------------------------------------------------------
// Ordering and sorting strings.
// ---------------------------------------------------------------------------

/// `a` comes before `b` or equals it, comparing character by character, a
/// prefix first: the order of `String` (UTF-8 bytes compare as their
/// characters do).
pub open spec fn lex_le(a: Seq<char>, b: Seq<char>) -> bool
    decreases a.len(),
{
    if a.len() == 0 {
        true
    } else if b.len() == 0 {
        false
    } else if a[0] != b[0] {
        (a[0] as int) < (b[0] as int)
    } else {
        lex_le(a.drop_first(), b.drop_first())
    }
}

proof fn lemma_lex_le_reflexive(a: Seq<char>)
    ensures
        lex_le(a, a),
    decreases a.len(),
{
    if a.len() > 0 {
        lemma_lex_le_reflexive(a.drop_first());
    }
}

proof fn lemma_lex_le_antisymmetric(a: Seq<char>, b: Seq<char>)
    requires
        lex_le(a, b),
        lex_le(b, a),
    ensures
        a == b,
    decreases a.len(),
{
    if a.len() > 0 && b.len() > 0 {
        if a[0] == b[0] {
            lemma_lex_le_antisymmetric(a.drop_first(), b.drop_first());
            assert(a =~= seq![a[0]] + a.drop_first());
            assert(b =~= seq![b[0]] + b.drop_first());
        } else {
            assert((a[0] as int) != (b[0] as int));
        }
    } else {
        assert(a =~= b);
    }
}

proof fn lemma_lex_le_transitive(a: Seq<char>, b: Seq<char>, c: Seq<char>)
    requires
        lex_le(a, b),
        lex_le(b, c),
    ensures
        lex_le(a, c),
    decreases a.len(),
{
    if a.len() > 0 && b.len() > 0 && c.len() > 0 {
        if a[0] == b[0] && b[0] == c[0] {
            lemma_lex_le_transitive(a.drop_first(), b.drop_first(), c.drop_first());
        } else if a[0] == c[0] {
            assert((a[0] as int) == (c[0] as int));
        }
    }
}

proof fn lemma_lex_le_total(a: Seq<char>, b: Seq<char>)
    ensures
        lex_le(a, b) || lex_le(b, a),
    decreases a.len(),
{
    if a.len() > 0 && b.len() > 0 {
        if a[0] == b[0] {
            lemma_lex_le_total(a.drop_first(), b.drop_first());
        } else {
            assert((a[0] as int) != (b[0] as int));
        }
    }
}

/// The order [`lex_le`] as a relation.
pub open spec fn lex_order() -> spec_fn(Seq<char>, Seq<char>) -> bool {
    |a: Seq<char>, b: Seq<char>| lex_le(a, b)
}

/// [`lex_le`] is a total order.
pub proof fn lemma_lex_total_ordering()
    ensures
        vstd::relations::total_ordering(lex_order()),
{
    let r = lex_order();
    assert forall|x: Seq<char>| #[trigger] r(x, x) by {
        lemma_lex_le_reflexive(x);
    }
    assert forall|x: Seq<char>, y: Seq<char>| #[trigger] r(x, y) && #[trigger] r(y, x) implies x
        == y by {
        lemma_lex_le_antisymmetric(x, y);
    }
    assert forall|x: Seq<char>, y: Seq<char>, z: Seq<char>| #[trigger] r(x, y) && #[trigger] r(
        y,
        z,
    ) implies r(x, z) by {
        lemma_lex_le_transitive(x, y, z);
    }
    assert forall|x: Seq<char>, y: Seq<char>| #[trigger] r(x, y) || #[trigger] r(y, x) by {
        lemma_lex_le_total(x, y);
    }
}

/// [`lex_le`].
pub fn lex_le_exec(a: &[char], b: &[char]) -> (r: bool)
    ensures
        r == lex_le(a@, b@),
{
    let mut i: usize = 0;
    assert(a@.subrange(0, a@.len() as int) == a@);
    assert(b@.subrange(0, b@.len() as int) == b@);
    while i < a.len()
        invariant
            i <= a@.len(),
            a@.len() == a.len(),
            b@.len() == b.len(),
            i <= b@.len(),
            a@.subrange(0, i as int) == b@.subrange(0, i as int),
            lex_le(a@, b@) == lex_le(
                a@.subrange(i as int, a@.len() as int),
                b@.subrange(i as int, b@.len() as int),
            ),
        decreases a@.len() - i,
    {
        let ghost sa = a@.subrange(i as int, a@.len() as int);
        let ghost sb = b@.subrange(i as int, b@.len() as int);
        if i >= b.len() {
            return false;
        }
        assert(sa[0] == a@[i as int]);
        assert(sb[0] == b@[i as int]);
        if a[i] != b[i] {
            return a[i] < b[i];
        }
        assert(sa.drop_first() =~= a@.subrange(i as int + 1, a@.len() as int));
        assert(sb.drop_first() =~= b@.subrange(i as int + 1, b@.len() as int));
        assert(a@.subrange(0, i as int + 1) =~= a@.subrange(0, i as int).push(a@[i as int]));
        assert(b@.subrange(0, i as int + 1) =~= b@.subrange(0, i as int).push(b@[i as int]));
        i += 1;
    }
    true
}

fn insertion_point(r: &Vec<String>, x: &str) -> (j: usize)
    ensures
        j <= r@.len(),
        forall|k: int| 0 <= k < j ==> lex_le(#[trigger] strings_view(r@)[k], x@),
        j < r@.len() ==> !lex_le(strings_view(r@)[j as int], x@),
{
    let xc = chars_of(x);
    let ghost rv = strings_view(r@);
    let mut j: usize = 0;
    while j < r.len()
        invariant
            j <= r@.len(),
            rv == strings_view(r@),
            xc@ == x@,
            forall|k: int| 0 <= k < j ==> lex_le(#[trigger] rv[k], x@),
        decreases r@.len() - j,
    {
        let rc = chars_of(r[j].as_str());
        assert(rc@ == rv[j as int]);
        let le = lex_le_exec(rc.as_slice(), xc.as_slice());
        assert(le == lex_le(rc@, xc@));
        assert(xc@ == x@);
        if !le {
            return j;
        }
        j += 1;
    }
    j
}

/// The strings in the order of `String`, as `sort` leaves them.
pub fn sort_strings(v: Vec<String>) -> (r: Vec<String>)
    ensures
        strings_view(r@) == strings_view(v@).sort_by(lex_order()),
{
    proof {
        lemma_lex_total_ordering();
    }
    let ghost ord = lex_order();
    let mut r: Vec<String> = Vec::new();
    let ghost input = strings_view(v@);
    let mut v = v;
    // Elements are taken from the back so that each can be moved out.
    while v.len() > 0
        invariant
            vstd::relations::total_ordering(ord),
            ord == lex_order(),
            vstd::relations::sorted_by(strings_view(r@), ord),
            strings_view(r@).to_multiset().add(strings_view(v@).to_multiset()) == input.to_multiset(),
        decreases v@.len(),
    {
        let ghost before_v = strings_view(v@);
        let x = v.pop().unwrap();
        assert(before_v =~= strings_view(v@).push(x@));
        let ghost rv = strings_view(r@);
        let j = insertion_point(&r, x.as_str());
        proof {
            assert forall|k: int| j <= k < rv.len() implies lex_le(x@, #[trigger] rv[k]) by {
                lemma_lex_le_total(rv[j as int], x@);
                if k > j {
                    assert(ord(rv[j as int], rv[k]));
                    lemma_lex_le_transitive(x@, rv[j as int], rv[k]);
                }
            }
            let nv = rv.insert(j as int, x@);
            assert forall|a: int, b: int| 0 <= a < b < nv.len() implies #[trigger] ord(
                nv[a],
                nv[b],
            ) by {
                if b < j {
                    assert(ord(rv[a], rv[b]));
                } else if a < j && b == j {
                    assert(lex_le(rv[a], x@));
                } else if a < j {
                    assert(lex_le(rv[a], x@));
                    assert(lex_le(x@, rv[b - 1]));
                    lemma_lex_le_transitive(rv[a], x@, rv[b - 1]);
                } else if a == j {
                    assert(lex_le(x@, rv[b - 1]));
                } else {
                    assert(ord(rv[a - 1], rv[b - 1]));
                }
            }
            vstd::seq_lib::to_multiset_insert(rv, j as int, x@);
            vstd::seq_lib::to_multiset_build(strings_view(v@), x@);
        }
        let ghost pre = r@;
        r.insert(j, x);
        assert(strings_view(r@) =~= rv.insert(j as int, x@));
        proof {
            broadcast use vstd::multiset::group_multiset_axioms;

            assert(strings_view(r@).to_multiset().add(strings_view(v@).to_multiset()) =~= input.to_multiset());
        }
    }
    proof {
        broadcast use vstd::multiset::group_multiset_axioms;

        assert(strings_view(v@) =~= Seq::<Seq<char>>::empty());
        assert(strings_view(r@).to_multiset() =~= input.to_multiset());
        input.lemma_sort_by_ensures(ord);
        vstd::seq_lib::lemma_sorted_unique(strings_view(r@), input.sort_by(ord), ord);
    }
    r
}


// ---------------------------------------------------------------------------
// Facts about decimal numbers and pieces between separators.
// ---------------------------------------------------------------------------

proof fn lemma_digit_char(d: nat)
    requires
        d < 10,
    ensures
        digit_char(d) as nat == 48 + d,
        is_digit(digit_char(d)),
{
    assert(((48 + d) as char) as nat == 48 + d);
}

/// Every character of a decimal representation is a digit.
pub proof fn lemma_dec_digits(n: nat)
    ensures
        all_digits(dec_spec(n)),
        dec_spec(n).len() > 0,
        digits_value(dec_spec(n)) == n,
    decreases n,
{
    lemma_digit_char(n % 10);
    if n < 10 {
        let t = dec_spec(n);
        assert(t == seq![digit_char(n)]);
        assert(t.drop_last() =~= Seq::<char>::empty());
        assert(t.last() == digit_char(n));
        assert(n % 10 == n);
        assert(digits_value(t) == digits_value(t.drop_last()) * 10 + ((t.last() as nat) - 48) as nat);
        assert(digits_value(Seq::<char>::empty()) == 0);
    }
    if n >= 10 {
        lemma_dec_digits(n / 10);
        let s = dec_spec(n / 10);
        let t = s.push(digit_char(n % 10));
        assert(dec_spec(n) == t);
        assert(t.drop_last() =~= s);
        assert(t.last() == digit_char(n % 10));
        assert(digits_value(t) == digits_value(s) * 10 + ((t.last() as nat) - 48) as nat);
        assert((n / 10) * 10 + n % 10 == n);
        assert forall|i: int| 0 <= i < t.len() implies is_digit(#[trigger] t[i]) by {
            if i < s.len() {
                assert(t[i] == s[i]);
            }
        }
    }
}

/// The decimal representation of a value of `i32` reads back as that value.
pub proof fn lemma_parse_dec(n: nat)
    requires
        n <= i32::MAX,
    ensures
        parse_i32_spec(dec_spec(n)) == Some(n as i32),
{
    lemma_dec_digits(n);
    let d = dec_spec(n);
    assert(is_digit(d[0]));
    assert(unsigned_part(d) == d);
}

/// Pieces that a separator has ended stay as they are whatever follows.
pub proof fn lemma_split_prefix(s: Seq<char>, t: Seq<char>, sep: char)
    ensures
        split_spec(s + t, sep).len() >= split_spec(s, sep).len(),
        split_spec(s + t, sep).subrange(0, split_spec(s, sep).len() - 1) == split_spec(s, sep).drop_last(),
    decreases t.len(),
{
    lemma_split_nonempty(s, sep);
    if t.len() == 0 {
        assert(s + t =~= s);
    } else {
        lemma_split_prefix(s, t.drop_last(), sep);
        let u = s + t;
        assert(u.drop_last() =~= s + t.drop_last());
        assert(u.last() == t.last());
        lemma_split_nonempty(u.drop_last(), sep);
        let prev = split_spec(u.drop_last(), sep);
        let k = split_spec(s, sep).len() - 1;
        if u.last() == sep {
            assert(split_spec(u, sep) == prev.push(Seq::<char>::empty()));
            assert(split_spec(u, sep).subrange(0, k) =~= prev.subrange(0, k));
        } else {
            assert(split_spec(u, sep) == prev.update(prev.len() - 1, prev.last().push(u.last())));
            assert(split_spec(u, sep).subrange(0, k) =~= prev.subrange(0, k));
        }
    }
}

/// A text without the separator is a single piece.
pub proof fn lemma_split_single(s: Seq<char>, sep: char)
    requires
        !s.contains(sep),
    ensures
        split_spec(s, sep) == seq![s],
    decreases s.len(),
{
    if s.len() == 0 {
    } else {
        assert(!s.drop_last().contains(sep)) by {
            if s.drop_last().contains(sep) {
                let i = choose|i: int| 0 <= i < s.drop_last().len() && s.drop_last()[i] == sep;
                assert(s[i] == sep);
            }
        }
        lemma_split_single(s.drop_last(), sep);
        assert(s.last() != sep) by {
            assert(s[s.len() - 1] == s.last());
        }
        assert(s.drop_last().push(s.last()) =~= s);
    }
}

/// The first line of a text that starts with a line holding no newline and
/// no carriage return at its end is that line.
pub proof fn lemma_first_line(a: Seq<char>, rest: Seq<char>)
    requires
        !a.contains('\n'),
        a.len() == 0 || a.last() != '\r',
    ensures
        lines_spec(a + seq!['\n'] + rest).len() > 0,
        lines_spec(a + seq!['\n'] + rest)[0] == a,
{
    let s = a + seq!['\n'];
    lemma_split_single(a, '\n');
    assert(s.drop_last() =~= a);
    assert(split_spec(s, '\n') == seq![a].push(Seq::<char>::empty()));
    lemma_split_prefix(s, rest, '\n');
    let parts = split_spec(s + rest, '\n');
    assert(parts.subrange(0, 1) == seq![a]);
    assert(parts.subrange(0, 1)[0] == parts[0]);
    assert(parts[0] == a);
    assert(a + seq!['\n'] + rest == s + rest);
}

/// Text with no white space at either end is its own trim.
pub proof fn lemma_trim_unchanged(s: Seq<char>)
    requires
        s.len() > 0,
        !is_white_space(s[0]),
        !is_white_space(s.last()),
    ensures
        trim_spec(s) == s,
{
}

proof fn lemma_trim_end_shape(t: Seq<char>)
    ensures
        trim_end_spec(t).len() <= t.len(),
        trim_end_spec(t) == t.subrange(0, trim_end_spec(t).len() as int),
        trim_end_spec(t).len() > 0 ==> !is_white_space(trim_end_spec(t).last()),
    decreases t.len(),
{
    if t.len() > 0 && is_white_space(t.last()) {
        lemma_trim_end_shape(t.drop_last());
        let k = trim_end_spec(t).len() as int;
        assert(t.drop_last().subrange(0, k) == t.subrange(0, k));
    } else {
        assert(t.subrange(0, t.len() as int) == t);
    }
}

/// Trimming twice is trimming once.
pub proof fn lemma_trim_idempotent(s: Seq<char>)
    ensures
        trim_spec(trim_spec(s)) == trim_spec(s),
{
    lemma_trim_start_skip(s);
    let t = trim_start_spec(s);
    lemma_trim_end_shape(t);
    let r = trim_spec(s);
    if r.len() == 0 {
        assert(r =~= Seq::<char>::empty());
    } else {
        assert(r[0] == t[0]);
        assert(t.len() > 0);
        assert(leading_ws(s) < s.len());
        assert(t[0] == s[leading_ws(s) as int]);
        lemma_trim_unchanged(r);
    }
}

} // verus!
