//! Keyboard input: the character a key types without Shift, and the UTF-8
//! bytes of a typed character. Keys are raylib's key codes.
use vstd::prelude::*;
use vstd::utf8::encode_utf8;

verus! {

/// Raylib's code of the space bar.
pub const KEY_SPACE: i32 = 32;
/// Raylib's code of the `'` key.
pub const KEY_APOSTROPHE: i32 = 39;
/// Raylib's code of the `,` key.
pub const KEY_COMMA: i32 = 44;
/// Raylib's code of the `-` key.
pub const KEY_MINUS: i32 = 45;
/// Raylib's code of the `.` key.
pub const KEY_PERIOD: i32 = 46;
/// Raylib's code of the `/` key.
pub const KEY_SLASH: i32 = 47;
/// Raylib's code of the `0` key; `1` to `9` follow.
pub const KEY_ZERO: i32 = 48;
/// Raylib's code of the `9` key.
pub const KEY_NINE: i32 = 57;
/// Raylib's code of the `;` key.
pub const KEY_SEMICOLON: i32 = 59;
/// Raylib's code of the `=` key.
pub const KEY_EQUAL: i32 = 61;
/// Raylib's code of the `A` key; `B` to `Z` follow.
pub const KEY_A: i32 = 65;
/// Raylib's code of the `Z` key.
pub const KEY_Z: i32 = 90;
/// Raylib's code of the `[` key.
pub const KEY_LEFT_BRACKET: i32 = 91;
/// Raylib's code of the `\` key.
pub const KEY_BACKSLASH: i32 = 92;
/// Raylib's code of the `]` key.
pub const KEY_RIGHT_BRACKET: i32 = 93;
/// Raylib's code of the `` ` `` key.
pub const KEY_GRAVE: i32 = 96;
/// Raylib's code of the Escape key.
pub const KEY_ESCAPE: i32 = 256;
/// Raylib's code of the Enter key.
pub const KEY_ENTER: i32 = 257;
/// Raylib's code of the Tab key.
pub const KEY_TAB: i32 = 258;
/// Raylib's code of the Backspace key.
pub const KEY_BACKSPACE: i32 = 259;
/// Raylib's code of the Insert key.
pub const KEY_INSERT: i32 = 260;
/// Raylib's code of the Delete key.
pub const KEY_DELETE: i32 = 261;
/// Raylib's code of the right arrow.
pub const KEY_RIGHT: i32 = 262;
/// Raylib's code of the left arrow.
pub const KEY_LEFT: i32 = 263;
/// Raylib's code of the down arrow.
pub const KEY_DOWN: i32 = 264;
/// Raylib's code of the up arrow.
pub const KEY_UP: i32 = 265;
/// Raylib's code of the Page Up key.
pub const KEY_PAGE_UP: i32 = 266;
/// Raylib's code of the Page Down key.
pub const KEY_PAGE_DOWN: i32 = 267;
/// Raylib's code of the Home key.
pub const KEY_HOME: i32 = 268;
/// Raylib's code of the End key.
pub const KEY_END: i32 = 269;
/// Raylib's code of F1; F2 to F12 follow.
pub const KEY_F1: i32 = 290;
/// Raylib's code of F12.
pub const KEY_F12: i32 = 301;

/// The code point a key types without Shift: lower-case letters, digits,
/// the space and the punctuation keys; 0 for any other key.
pub open spec fn unshifted_codepoint_spec(key: i32) -> u32 {
    if KEY_A <= key <= KEY_Z {
        (97 + (key - KEY_A)) as u32
    } else if KEY_ZERO <= key <= KEY_NINE {
        (48 + (key - KEY_ZERO)) as u32
    } else if key == KEY_SPACE {
        32
    } else if key == KEY_MINUS {
        45
    } else if key == KEY_EQUAL {
        61
    } else if key == KEY_LEFT_BRACKET {
        91
    } else if key == KEY_RIGHT_BRACKET {
        93
    } else if key == KEY_BACKSLASH {
        92
    } else if key == KEY_SEMICOLON {
        59
    } else if key == KEY_APOSTROPHE {
        39
    } else if key == KEY_COMMA {
        44
    } else if key == KEY_PERIOD {
        46
    } else if key == KEY_SLASH {
        47
    } else if key == KEY_GRAVE {
        96
    } else {
        0
    }
}

/// [`unshifted_codepoint_spec`].
pub fn raylib_key_unshifted_codepoint(key: i32) -> (r: u32)
    ensures
        r == unshifted_codepoint_spec(key),
{
    if key >= KEY_A && key <= KEY_Z {
        return 97 + (key - KEY_A) as u32;
    }
    if key >= KEY_ZERO && key <= KEY_NINE {
        return 48 + (key - KEY_ZERO) as u32;
    }
    if key == KEY_SPACE {
        32
    } else if key == KEY_MINUS {
        45
    } else if key == KEY_EQUAL {
        61
    } else if key == KEY_LEFT_BRACKET {
        91
    } else if key == KEY_RIGHT_BRACKET {
        93
    } else if key == KEY_BACKSLASH {
        92
    } else if key == KEY_SEMICOLON {
        59
    } else if key == KEY_APOSTROPHE {
        39
    } else if key == KEY_COMMA {
        44
    } else if key == KEY_PERIOD {
        46
    } else if key == KEY_SLASH {
        47
    } else if key == KEY_GRAVE {
        96
    } else {
        0
    }
}

/// A Unicode scalar value: at most `0x10FFFF` and not a surrogate.
pub open spec fn is_scalar_value(cp: u32) -> bool {
    cp < 0xD800 || (0xE000 <= cp && cp <= 0x10FFFF)
}

/// `char::from_u32`: the character of a scalar value, `None` for any other
/// number.
#[verifier::external_body]
pub(crate) fn char_from_code(cp: u32) -> (r: Option<char>)
    ensures
        r is Some <==> is_scalar_value(cp),
        r matches Some(c) ==> c as u32 == cp,
{
    char::from_u32(cp)
}

/// The character a code point stands for: itself when it is a scalar
/// value, else U+FFFD.
pub open spec fn char_of_code(cp: u32) -> char {
    if is_scalar_value(cp) {
        cp as char
    } else {
        '\u{FFFD}'
    }
}

/// The character a code point stands for, as [`char_of_code`].
pub fn code_to_char(cp: u32) -> (r: char)
    ensures
        r == char_of_code(cp),
{
    match char_from_code(cp) {
        Some(c) => {
            proof {
                lemma_char_of_scalar(cp, c);
            }
            c
        },
        None => '\u{FFFD}',
    }
}

/// A character is the character of its scalar value.
pub proof fn lemma_char_of_scalar(cp: u32, c: char)
    requires
        is_scalar_value(cp),
        c as u32 == cp,
    ensures
        c == cp as char,
{
}

/// Appends the UTF-8 bytes of a character.
fn push_char_utf8(out: &mut Vec<u8>, c: char)
    ensures
        final(out)@ == old(out)@ + encode_utf8(seq![c]),
{
    let mut s = String::new();
    s.push(c);
    assert(s@ =~= seq![c]);
    let bytes = s.as_str().as_bytes();
    let mut i: usize = 0;
    while i < bytes.len()
        invariant
            i <= bytes@.len(),
            bytes@.len() == bytes.len(),
            bytes@ == encode_utf8(seq![c]),
            out@ == old(out)@ + bytes@.subrange(0, i as int),
        decreases bytes@.len() - i,
    {
        out.push(bytes[i]);
        assert(bytes@.subrange(0, i as int + 1) =~= bytes@.subrange(0, i as int).push(bytes@[i as int]));
        i += 1;
    }
    assert(bytes@.subrange(0, bytes@.len() as int) == bytes@);
}

/// The UTF-8 bytes of the character a code point stands for.
pub fn utf8_encode(cp: u32) -> (r: Vec<u8>)
    ensures
        r@ == encode_utf8(seq![char_of_code(cp)]),
{
    let c = code_to_char(cp);
    let mut r: Vec<u8> = Vec::new();
    push_char_utf8(&mut r, c);
    assert(r@ =~= encode_utf8(seq![c]));
    r
}

/// The characters among code points: those that are scalar values, in order.
pub open spec fn scalar_chars(cps: Seq<u32>) -> Seq<char>
    decreases cps.len(),
{
    if cps.len() == 0 {
        Seq::empty()
    } else {
        scalar_chars(cps.drop_last()) + if is_scalar_value(cps.last()) {
            seq![cps.last() as char]
        } else {
            Seq::<char>::empty()
        }
    }
}

/// The UTF-8 bytes of the characters that code points stand for, in order.
pub open spec fn codes_utf8(cps: Seq<u32>) -> Seq<u8>
    decreases cps.len(),
{
    if cps.len() == 0 {
        Seq::empty()
    } else {
        codes_utf8(cps.drop_last()) + encode_utf8(seq![char_of_code(cps.last())])
    }
}

/// The text typed in a frame, from the code points the window reported: the
/// valid characters (for the AI prompt), and the UTF-8 bytes of every code
/// point, U+FFFD standing for an invalid one (for the shell).
pub fn typed_input(codes: &[u32]) -> (r: (Vec<char>, Vec<u8>))
    ensures
        r.0@ == scalar_chars(codes@),
        r.1@ == codes_utf8(codes@),
{
    let mut chars: Vec<char> = Vec::new();
    let mut bytes: Vec<u8> = Vec::new();
    let mut i: usize = 0;
    while i < codes.len()
        invariant
            i <= codes@.len(),
            codes@.len() == codes.len(),
            chars@ == scalar_chars(codes@.subrange(0, i as int)),
            bytes@ == codes_utf8(codes@.subrange(0, i as int)),
        decreases codes@.len() - i,
    {
        let ghost q = codes@.subrange(0, i as int + 1);
        assert(q.drop_last() =~= codes@.subrange(0, i as int));
        assert(q.last() == codes@[i as int]);
        let cp = codes[i];
        match char_from_code(cp) {
            Some(c) => {
                chars.push(c);
                proof {
                    lemma_char_of_scalar(cp, c);
                }
            },
            None => {},
        }
        let c = code_to_char(cp);
        push_char_utf8(&mut bytes, c);
        assert(chars@ =~= scalar_chars(q));
        i += 1;
    }
    assert(codes@.subrange(0, codes@.len() as int) == codes@);
    (chars, bytes)
}

/// The modifier keys held.
#[derive(Clone, Copy, Debug, PartialEq, Eq, Structural)]
pub struct Modifiers {
    pub shift: bool,
    pub ctrl: bool,
    pub alt: bool,
    pub super_key: bool,
}

impl Modifiers {
    /// The modifiers held, each by its left or its right key.
    pub fn from_keys(
        left_shift: bool,
        right_shift: bool,
        left_ctrl: bool,
        right_ctrl: bool,
        left_alt: bool,
        right_alt: bool,
        left_super: bool,
        right_super: bool,
    ) -> (r: Self)
        ensures
            r.shift == (left_shift || right_shift),
            r.ctrl == (left_ctrl || right_ctrl),
            r.alt == (left_alt || right_alt),
            r.super_key == (left_super || right_super),
    {
        Modifiers {
            shift: left_shift || right_shift,
            ctrl: left_ctrl || right_ctrl,
            alt: left_alt || right_alt,
            super_key: left_super || right_super,
        }
    }
}

/// A key as the terminal engine names it: letters and digits by their
/// index, function keys by their number.
#[derive(Clone, Copy, Debug, PartialEq, Eq, Structural)]
pub enum TermKey {
    Letter(u8),
    Digit(u8),
    Function(u8),
    Space,
    Enter,
    Tab,
    Backspace,
    Delete,
    Escape,
    ArrowUp,
    ArrowDown,
    ArrowLeft,
    ArrowRight,
    Home,
    End,
    PageUp,
    PageDown,
    Insert,
    Minus,
    Equal,
    BracketLeft,
    BracketRight,
    Backslash,
    Semicolon,
    Quote,
    Comma,
    Period,
    Slash,
    Backquote,
    Unidentified,
}

/// The engine's key for a raylib key code.
pub open spec fn term_key_spec(key: i32) -> TermKey {
    if KEY_A <= key <= KEY_Z {
        TermKey::Letter((key - KEY_A) as u8)
    } else if KEY_ZERO <= key <= KEY_NINE {
        TermKey::Digit((key - KEY_ZERO) as u8)
    } else if KEY_F1 <= key <= KEY_F12 {
        TermKey::Function((key - KEY_F1 + 1) as u8)
    } else if key == KEY_SPACE {
        TermKey::Space
    } else if key == KEY_ENTER {
        TermKey::Enter
    } else if key == KEY_TAB {
        TermKey::Tab
    } else if key == KEY_BACKSPACE {
        TermKey::Backspace
    } else if key == KEY_DELETE {
        TermKey::Delete
    } else if key == KEY_ESCAPE {
        TermKey::Escape
    } else if key == KEY_UP {
        TermKey::ArrowUp
    } else if key == KEY_DOWN {
        TermKey::ArrowDown
    } else if key == KEY_LEFT {
        TermKey::ArrowLeft
    } else if key == KEY_RIGHT {
        TermKey::ArrowRight
    } else if key == KEY_HOME {
        TermKey::Home
    } else if key == KEY_END {
        TermKey::End
    } else if key == KEY_PAGE_UP {
        TermKey::PageUp
    } else if key == KEY_PAGE_DOWN {
        TermKey::PageDown
    } else if key == KEY_INSERT {
        TermKey::Insert
    } else if key == KEY_MINUS {
        TermKey::Minus
    } else if key == KEY_EQUAL {
        TermKey::Equal
    } else if key == KEY_LEFT_BRACKET {
        TermKey::BracketLeft
    } else if key == KEY_RIGHT_BRACKET {
        TermKey::BracketRight
    } else if key == KEY_BACKSLASH {
        TermKey::Backslash
    } else if key == KEY_SEMICOLON {
        TermKey::Semicolon
    } else if key == KEY_APOSTROPHE {
        TermKey::Quote
    } else if key == KEY_COMMA {
        TermKey::Comma
    } else if key == KEY_PERIOD {
        TermKey::Period
    } else if key == KEY_SLASH {
        TermKey::Slash
    } else if key == KEY_GRAVE {
        TermKey::Backquote
    } else {
        TermKey::Unidentified
    }
}

/// Each raylib key reaches the engine as the key of the same name, and no
/// other key does: the arrows as the arrows in their directions, letters
/// and digits by their place from `A` and `0`, function keys by number.
pub proof fn lemma_keys_keep_their_names(key: i32)
    ensures
        (term_key_spec(key) == TermKey::ArrowUp) == (key == KEY_UP),
        (term_key_spec(key) == TermKey::ArrowDown) == (key == KEY_DOWN),
        (term_key_spec(key) == TermKey::ArrowLeft) == (key == KEY_LEFT),
        (term_key_spec(key) == TermKey::ArrowRight) == (key == KEY_RIGHT),
        (term_key_spec(key) == TermKey::Space) == (key == KEY_SPACE),
        (term_key_spec(key) == TermKey::Enter) == (key == KEY_ENTER),
        (term_key_spec(key) == TermKey::Tab) == (key == KEY_TAB),
        (term_key_spec(key) == TermKey::Backspace) == (key == KEY_BACKSPACE),
        (term_key_spec(key) == TermKey::Delete) == (key == KEY_DELETE),
        (term_key_spec(key) == TermKey::Escape) == (key == KEY_ESCAPE),
        (term_key_spec(key) == TermKey::Home) == (key == KEY_HOME),
        (term_key_spec(key) == TermKey::End) == (key == KEY_END),
        (term_key_spec(key) == TermKey::PageUp) == (key == KEY_PAGE_UP),
        (term_key_spec(key) == TermKey::PageDown) == (key == KEY_PAGE_DOWN),
        (term_key_spec(key) == TermKey::Insert) == (key == KEY_INSERT),
        (term_key_spec(key) == TermKey::Minus) == (key == KEY_MINUS),
        (term_key_spec(key) == TermKey::Equal) == (key == KEY_EQUAL),
        (term_key_spec(key) == TermKey::BracketLeft) == (key == KEY_LEFT_BRACKET),
        (term_key_spec(key) == TermKey::BracketRight) == (key == KEY_RIGHT_BRACKET),
        (term_key_spec(key) == TermKey::Backslash) == (key == KEY_BACKSLASH),
        (term_key_spec(key) == TermKey::Semicolon) == (key == KEY_SEMICOLON),
        (term_key_spec(key) == TermKey::Quote) == (key == KEY_APOSTROPHE),
        (term_key_spec(key) == TermKey::Comma) == (key == KEY_COMMA),
        (term_key_spec(key) == TermKey::Period) == (key == KEY_PERIOD),
        (term_key_spec(key) == TermKey::Slash) == (key == KEY_SLASH),
        (term_key_spec(key) == TermKey::Backquote) == (key == KEY_GRAVE),
        forall|i: u8| i < 26 ==> ((term_key_spec(key) == TermKey::Letter(i)) == (key == KEY_A + i)),
        forall|i: u8| i < 10 ==> ((term_key_spec(key) == TermKey::Digit(i)) == (key == KEY_ZERO + i)),
        forall|n: u8| 1 <= n <= 12 ==> ((term_key_spec(key) == TermKey::Function(n)) == (key == KEY_F1 + n - 1)),
{
}

/// [`term_key_spec`].
pub fn raylib_key_to_term_key(key: i32) -> (r: TermKey)
    ensures
        r == term_key_spec(key),
{
    if key >= KEY_A && key <= KEY_Z {
        return TermKey::Letter((key - KEY_A) as u8);
    }
    if key >= KEY_ZERO && key <= KEY_NINE {
        return TermKey::Digit((key - KEY_ZERO) as u8);
    }
    if key >= KEY_F1 && key <= KEY_F12 {
        return TermKey::Function((key - KEY_F1 + 1) as u8);
    }
    if key == KEY_SPACE {
        TermKey::Space
    } else if key == KEY_ENTER {
        TermKey::Enter
    } else if key == KEY_TAB {
        TermKey::Tab
    } else if key == KEY_BACKSPACE {
        TermKey::Backspace
    } else if key == KEY_DELETE {
        TermKey::Delete
    } else if key == KEY_ESCAPE {
        TermKey::Escape
    } else if key == KEY_UP {
        TermKey::ArrowUp
    } else if key == KEY_DOWN {
        TermKey::ArrowDown
    } else if key == KEY_LEFT {
        TermKey::ArrowLeft
    } else if key == KEY_RIGHT {
        TermKey::ArrowRight
    } else if key == KEY_HOME {
        TermKey::Home
    } else if key == KEY_END {
        TermKey::End
    } else if key == KEY_PAGE_UP {
        TermKey::PageUp
    } else if key == KEY_PAGE_DOWN {
        TermKey::PageDown
    } else if key == KEY_INSERT {
        TermKey::Insert
    } else if key == KEY_MINUS {
        TermKey::Minus
    } else if key == KEY_EQUAL {
        TermKey::Equal
    } else if key == KEY_LEFT_BRACKET {
        TermKey::BracketLeft
    } else if key == KEY_RIGHT_BRACKET {
        TermKey::BracketRight
    } else if key == KEY_BACKSLASH {
        TermKey::Backslash
    } else if key == KEY_SEMICOLON {
        TermKey::Semicolon
    } else if key == KEY_APOSTROPHE {
        TermKey::Quote
    } else if key == KEY_COMMA {
        TermKey::Comma
    } else if key == KEY_PERIOD {
        TermKey::Period
    } else if key == KEY_SLASH {
        TermKey::Slash
    } else if key == KEY_GRAVE {
        TermKey::Backquote
    } else {
        TermKey::Unidentified
    }
}

/// The keys other than letters and digits that are passed to the shell.
pub open spec fn special_keys() -> Seq<i32> {
    seq![
        KEY_SPACE, KEY_ENTER, KEY_TAB, KEY_BACKSPACE, KEY_DELETE, KEY_ESCAPE, KEY_UP, KEY_DOWN,
        KEY_LEFT, KEY_RIGHT, KEY_HOME, KEY_END, KEY_PAGE_UP, KEY_PAGE_DOWN, KEY_INSERT, KEY_MINUS,
        KEY_EQUAL, KEY_LEFT_BRACKET, KEY_RIGHT_BRACKET, KEY_BACKSLASH, KEY_SEMICOLON, KEY_APOSTROPHE,
        KEY_COMMA, KEY_PERIOD, KEY_SLASH, KEY_GRAVE, 290i32, 291i32, 292i32, 293i32, 294i32, 295i32,
        296i32, 297i32, 298i32, 299i32, 300i32, 301i32,
    ]
}

/// The keys looked at each frame, in order: `A` to `Z`, `0` to `9`, then
/// [`special_keys`].
pub open spec fn polled_keys() -> Seq<i32> {
    Seq::new(26, |i: int| (KEY_A + i) as i32) + Seq::new(10, |i: int| (KEY_ZERO + i) as i32)
        + special_keys()
}

/// [`polled_keys`].
pub fn keys_to_check() -> (r: Vec<i32>)
    ensures
        r@ == polled_keys(),
{
    let mut r: Vec<i32> = Vec::new();
    let mut k: i32 = KEY_A;
    while k <= KEY_Z
        invariant
            KEY_A <= k <= KEY_Z + 1,
            r@ == Seq::new((k - KEY_A) as nat, |i: int| (KEY_A + i) as i32),
        decreases KEY_Z + 1 - k,
    {
        r.push(k);
        assert(r@ =~= Seq::new((k + 1 - KEY_A) as nat, |i: int| (KEY_A + i) as i32));
        k += 1;
    }
    let ghost letters = r@;
    let mut d: i32 = KEY_ZERO;
    while d <= KEY_NINE
        invariant
            KEY_ZERO <= d <= KEY_NINE + 1,
            letters == Seq::new(26, |i: int| (KEY_A + i) as i32),
            r@ == letters + Seq::new((d - KEY_ZERO) as nat, |i: int| (KEY_ZERO + i) as i32),
        decreases KEY_NINE + 1 - d,
    {
        r.push(d);
        assert(r@ =~= letters + Seq::new((d + 1 - KEY_ZERO) as nat, |i: int| (KEY_ZERO + i) as i32));
        d += 1;
    }
    let specials: [i32; 38] = [
        KEY_SPACE, KEY_ENTER, KEY_TAB, KEY_BACKSPACE, KEY_DELETE, KEY_ESCAPE, KEY_UP, KEY_DOWN,
        KEY_LEFT, KEY_RIGHT, KEY_HOME, KEY_END, KEY_PAGE_UP, KEY_PAGE_DOWN, KEY_INSERT, KEY_MINUS,
        KEY_EQUAL, KEY_LEFT_BRACKET, KEY_RIGHT_BRACKET, KEY_BACKSLASH, KEY_SEMICOLON, KEY_APOSTROPHE,
        KEY_COMMA, KEY_PERIOD, KEY_SLASH, KEY_GRAVE, 290, 291, 292, 293, 294, 295, 296, 297, 298,
        299, 300, 301,
    ];
    assert(specials@ =~= special_keys());
    let ghost base = r@;
    let mut j: usize = 0;
    while j < 38
        invariant
            j <= 38,
            specials@ == special_keys(),
            r@ == base + specials@.subrange(0, j as int),
        decreases 38 - j,
    {
        r.push(specials[j]);
        assert(specials@.subrange(0, j as int + 1) =~= specials@.subrange(0, j as int).push(
            specials@[j as int],
        ));
        j += 1;
    }
    assert(specials@.subrange(0, 38) == specials@);
    r
}

/// What a key did this frame.
#[derive(Clone, Copy, Debug, PartialEq, Eq, Structural)]
pub enum KeyAction {
    Press,
    Repeat,
    Release,
}

/// The action reported for a key: a release first, then a press, then a
/// repeat; nothing when the key did none of these.
pub open spec fn key_action_spec(pressed: bool, repeated: bool, released: bool) -> Option<KeyAction> {
    if released {
        Some(KeyAction::Release)
    } else if pressed {
        Some(KeyAction::Press)
    } else if repeated {
        Some(KeyAction::Repeat)
    } else {
        None
    }
}

/// [`key_action_spec`].
pub fn key_action(pressed: bool, repeated: bool, released: bool) -> (r: Option<KeyAction>)
    ensures
        r == key_action_spec(pressed, repeated, released),
{
    if released {
        Some(KeyAction::Release)
    } else if pressed {
        Some(KeyAction::Press)
    } else if repeated {
        Some(KeyAction::Repeat)
    } else {
        None
    }
}

/// What the key encoder is given for one key event.
pub struct KeyEventPlan {
    pub key: TermKey,
    pub action: KeyAction,
    pub mods: Modifiers,
    /// The character the key types without Shift, 0 for none.
    pub unshifted: u32,
    /// Shift counts as used up by the character.
    pub shift_consumed: bool,
    /// The text typed this frame, sent with the event.
    pub text: Option<Vec<u8>>,
}

/// The text typed in a frame that no key event has carried yet.
pub struct KeyInput {
    pending: Vec<u8>,
}

impl KeyInput {
    /// The typed text not sent yet.
    pub closed spec fn pending(&self) -> Seq<u8> {
        self.pending@
    }

    /// Input for a frame in which `typed` was typed (see [`typed_input`]).
    pub fn new(typed: Vec<u8>) -> (r: Self)
        ensures
            r.pending() == typed@,
    {
        KeyInput { pending: typed }
    }

    /// The event for a key in this frame, if it did something and the
    /// engine has a name for it. The typed text rides with the first
    /// event that is not a release, and is then no longer pending.
    pub fn plan_key(&mut self, key: i32, pressed: bool, repeated: bool, released: bool, mods: Modifiers) -> (r:
        Option<KeyEventPlan>)
        ensures
            match key_action_spec(pressed, repeated, released) {
                Some(a) if term_key_spec(key) != TermKey::Unidentified => r matches Some(p) && {
                    &&& p.key == term_key_spec(key)
                    &&& p.action == a
                    &&& p.mods == mods
                    &&& p.unshifted == unshifted_codepoint_spec(key)
                    &&& p.shift_consumed == (unshifted_codepoint_spec(key) != 0 && mods.shift)
                    &&& if old(self).pending().len() > 0 && !released {
                        &&& p.text matches Some(t) && t@ == old(self).pending()
                        &&& final(self).pending() == Seq::<u8>::empty()
                    } else {
                        &&& p.text is None
                        &&& final(self).pending() == old(self).pending()
                    }
                },
                _ => r is None && final(self).pending() == old(self).pending(),
            },
    {
        let action = match key_action(pressed, repeated, released) {
            Some(a) => a,
            None => return None,
        };
        let k = raylib_key_to_term_key(key);
        if k == TermKey::Unidentified {
            return None;
        }
        let unshifted = raylib_key_unshifted_codepoint(key);
        let text = if self.pending.len() > 0 && !released {
            let mut t: Vec<u8> = Vec::new();
            std::mem::swap(&mut t, &mut self.pending);
            Some(t)
        } else {
            None
        };
        Some(
            KeyEventPlan {
                key: k,
                action,
                mods,
                unshifted,
                shift_consumed: unshifted != 0 && mods.shift,
                text,
            },
        )
    }

    /// After the encoder ran for an event: when it wrote bytes, the typed
    /// text counts as sent.
    pub fn encoded(&mut self, success: bool, written: usize)
        ensures
            final(self).pending() == if success && written > 0 {
                Seq::<u8>::empty()
            } else {
                old(self).pending()
            },
    {
        if success && written > 0 {
            self.pending.clear();
        }
    }

    /// The typed text that no event carried, to be written to the shell
    /// as it is.
    pub fn leftover(self) -> (r: Option<Vec<u8>>)
        ensures
            match r {
                Some(t) => self.pending().len() > 0 && t@ == self.pending(),
                None => self.pending().len() == 0,
            },
    {
        if self.pending.len() > 0 {
            Some(self.pending)
        } else {
            None
        }
    }
}

/// A mouse button as the terminal engine names it.
#[derive(Clone, Copy, Debug, PartialEq, Eq, Structural)]
pub enum MouseBtn {
    Left,
    Right,
    Middle,
    Four,
    Five,
    Six,
    Seven,
}

/// The engine's button for raylib's button number: left, right and
/// middle, then side, extra, forward and back as buttons four to seven.
pub open spec fn mouse_btn_spec(b: int) -> Option<MouseBtn> {
    if b == 0 {
        Some(MouseBtn::Left)
    } else if b == 1 {
        Some(MouseBtn::Right)
    } else if b == 2 {
        Some(MouseBtn::Middle)
    } else if b == 3 {
        Some(MouseBtn::Four)
    } else if b == 4 {
        Some(MouseBtn::Five)
    } else if b == 5 {
        Some(MouseBtn::Six)
    } else if b == 6 {
        Some(MouseBtn::Seven)
    } else {
        None
    }
}

/// [`mouse_btn_spec`].
pub fn raylib_mouse_button(b: i32) -> (r: Option<MouseBtn>)
    ensures
        r == mouse_btn_spec(b as int),
{
    if b == 0 {
        Some(MouseBtn::Left)
    } else if b == 1 {
        Some(MouseBtn::Right)
    } else if b == 2 {
        Some(MouseBtn::Middle)
    } else if b == 3 {
        Some(MouseBtn::Four)
    } else if b == 4 {
        Some(MouseBtn::Five)
    } else if b == 5 {
        Some(MouseBtn::Six)
    } else if b == 6 {
        Some(MouseBtn::Seven)
    } else {
        None
    }
}

/// What a mouse event reports.
#[derive(Clone, Copy, Debug, PartialEq, Eq, Structural)]
pub enum MouseAction {
    Press,
    Release,
    Motion,
}

/// One event for the mouse encoder: the action and the button it names,
/// if any.
#[derive(Clone, Copy, Debug, PartialEq, Eq, Structural)]
pub struct MouseStep {
    pub action: MouseAction,
    pub button: Option<MouseBtn>,
}

/// What the mouse did during a frame over a panel.
pub struct MouseFrame {
    /// Buttons pressed this frame, by raylib's button number.
    pub pressed: [bool; 7],
    /// Buttons released this frame, by raylib's button number.
    pub released: [bool; 7],
    pub left_down: bool,
    pub right_down: bool,
    pub middle_down: bool,
    /// The pointer moved.
    pub moved: bool,
    /// The wheel's movement: positive up, negative down, 0 for none.
    pub wheel: i32,
    /// The program in the terminal tracks the mouse.
    pub mouse_tracking: bool,
}

/// What to do with a frame of mouse input: whether a button is held, the
/// events to encode for the shell, in order, and how many lines to scroll
/// the view (0 for none).
pub struct MousePlan {
    pub any_pressed: bool,
    pub steps: Vec<MouseStep>,
    pub scroll: i32,
}

/// Events of the buttons `0..n`, in order: a press, else a release.
pub open spec fn button_steps(pressed: Seq<bool>, released: Seq<bool>, n: int) -> Seq<MouseStep>
    decreases n,
{
    if n <= 0 {
        Seq::empty()
    } else {
        button_steps(pressed, released, n - 1) + if pressed[n - 1] {
            seq![MouseStep { action: MouseAction::Press, button: mouse_btn_spec(n - 1) }]
        } else if released[n - 1] {
            seq![MouseStep { action: MouseAction::Release, button: mouse_btn_spec(n - 1) }]
        } else {
            Seq::<MouseStep>::empty()
        }
    }
}

/// The button a motion reports: the first held of left, right and middle.
pub open spec fn motion_button_spec(left: bool, right: bool, middle: bool) -> Option<MouseBtn> {
    if left {
        Some(MouseBtn::Left)
    } else if right {
        Some(MouseBtn::Right)
    } else if middle {
        Some(MouseBtn::Middle)
    } else {
        None
    }
}

/// The events of a frame: the buttons, then a motion if the pointer moved,
/// then, for a program that tracks the mouse, the wheel as a press and a
/// release of button four (up) or five (down).
pub open spec fn mouse_steps_spec(f: MouseFrame) -> Seq<MouseStep> {
    button_steps(f.pressed@, f.released@, 7) + (if f.moved {
        seq![
            MouseStep {
                action: MouseAction::Motion,
                button: motion_button_spec(f.left_down, f.right_down, f.middle_down),
            },
        ]
    } else {
        Seq::empty()
    }) + (if f.wheel != 0 && f.mouse_tracking {
        let b = if f.wheel > 0 {
            MouseBtn::Four
        } else {
            MouseBtn::Five
        };
        seq![
            MouseStep { action: MouseAction::Press, button: Some(b) },
            MouseStep { action: MouseAction::Release, button: Some(b) },
        ]
    } else {
        Seq::empty()
    })
}

/// Lines to scroll the view for the wheel when the program does not track
/// the mouse: three up or three down.
pub open spec fn wheel_scroll_spec(f: MouseFrame) -> i32 {
    if f.wheel != 0 && !f.mouse_tracking {
        if f.wheel > 0 {
            -3i32
        } else {
            3i32
        }
    } else {
        0i32
    }
}

/// The plan for a frame of mouse input.
pub fn mouse_plan(f: &MouseFrame) -> (r: MousePlan)
    ensures
        r.any_pressed == (f.left_down || f.right_down || f.middle_down),
        r.steps@ == mouse_steps_spec(*f),
        r.scroll == wheel_scroll_spec(*f),
{
    let mut steps: Vec<MouseStep> = Vec::new();
    let mut i: usize = 0;
    while i < 7
        invariant
            i <= 7,
            steps@ == button_steps(f.pressed@, f.released@, i as int),
        decreases 7 - i,
    {
        let b = raylib_mouse_button(i as i32);
        if f.pressed[i] {
            steps.push(MouseStep { action: MouseAction::Press, button: b });
        } else if f.released[i] {
            steps.push(MouseStep { action: MouseAction::Release, button: b });
        }
        i += 1;
    }
    if f.moved {
        let button = if f.left_down {
            Some(MouseBtn::Left)
        } else if f.right_down {
            Some(MouseBtn::Right)
        } else if f.middle_down {
            Some(MouseBtn::Middle)
        } else {
            None
        };
        steps.push(MouseStep { action: MouseAction::Motion, button });
    }
    let mut scroll: i32 = 0;
    if f.wheel != 0 {
        if f.mouse_tracking {
            let b = if f.wheel > 0 {
                MouseBtn::Four
            } else {
                MouseBtn::Five
            };
            steps.push(MouseStep { action: MouseAction::Press, button: Some(b) });
            steps.push(MouseStep { action: MouseAction::Release, button: Some(b) });
        } else {
            scroll = if f.wheel > 0 {
                -3
            } else {
                3
            };
        }
    }
    assert(steps@ =~= mouse_steps_spec(*f));
    MousePlan { any_pressed: f.left_down || f.right_down || f.middle_down, steps, scroll }
}

} // verus!
