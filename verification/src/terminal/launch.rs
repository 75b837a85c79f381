//! How a local shell is started: which program, with which arguments and
//! environment, in a window of which size.
use vstd::prelude::*;

use crate::text::{chars_of, string_of_range};

verus! {

/// The shell to run: `$SHELL` when it is set, else the user's login shell,
/// else `/bin/sh`.
pub fn choose_shell(env_shell: Option<String>, login_shell: Option<String>) -> (r: String)
    ensures
        r@ == match env_shell {
            Some(s) => s@,
            None => match login_shell {
                Some(s) => s@,
                None => "/bin/sh"@,
            },
        },
{
    match env_shell {
        Some(s) => s,
        None => match login_shell {
            Some(s) => s,
            None => "/bin/sh".to_owned(),
        },
    }
}

/// Index just after the last `'/'` among the first `n` characters, 0 when
/// there is none.
pub open spec fn after_last_slash(s: Seq<char>, n: int) -> int
    decreases n,
{
    if n <= 0 {
        0
    } else if s[n - 1] == '/' {
        n
    } else {
        after_last_slash(s, n - 1)
    }
}

/// The shell's name: its path after the last `'/'`.
pub open spec fn shell_name_spec(shell: Seq<char>) -> Seq<char> {
    shell.subrange(after_last_slash(shell, shell.len() as int), shell.len() as int)
}

/// [`shell_name_spec`].
pub fn shell_name(shell: &str) -> (r: String)
    ensures
        r@ == shell_name_spec(shell@),
{
    let v = chars_of(shell);
    let mut n: usize = v.len();
    while n > 0 && v[n - 1] != '/'
        invariant
            n <= v@.len(),
            after_last_slash(v@, n as int) == after_last_slash(v@, v@.len() as int),
        decreases n,
    {
        n -= 1;
    }
    string_of_range(&v, n, v.len())
}

/// The shell's arguments, its name first: zsh also gets options that keep
/// commands starting with a space out of its history and turn off `!`
/// expansion.
pub open spec fn shell_args_spec(name: Seq<char>) -> Seq<Seq<char>> {
    if name == "zsh"@ {
        seq![name, "-o"@, "HIST_IGNORE_SPACE"@, "-o"@, "NO_BANG_HIST"@]
    } else {
        seq![name]
    }
}

/// Views of strings.
pub open spec fn texts(v: Seq<String>) -> Seq<Seq<char>> {
    v.map_values(|t: String| t@)
}

/// [`shell_args_spec`] for the shell at `shell`.
pub fn shell_args(shell: &str) -> (r: Vec<String>)
    ensures
        texts(r@) == shell_args_spec(shell_name_spec(shell@)),
{
    let name = shell_name(shell);
    let zsh = crate::text::str_eq(name.as_str(), "zsh");
    let mut r: Vec<String> = Vec::new();
    r.push(name);
    if zsh {
        r.push("-o".to_owned());
        r.push("HIST_IGNORE_SPACE".to_owned());
        r.push("-o".to_owned());
        r.push("NO_BANG_HIST".to_owned());
    }
    assert(texts(r@) =~= shell_args_spec(shell_name_spec(shell@)));
    r
}

/// The variables the shell is started without.
pub open spec fn unset_vars_spec() -> Seq<Seq<char>> {
    seq!["NO_COLOR"@, "FORCE_COLOR"@, "CI"@]
}

/// [`unset_vars_spec`].
pub fn unset_vars() -> (r: Vec<String>)
    ensures
        texts(r@) == unset_vars_spec(),
{
    let mut r: Vec<String> = Vec::new();
    r.push("NO_COLOR".to_owned());
    r.push("FORCE_COLOR".to_owned());
    r.push("CI".to_owned());
    assert(texts(r@) =~= unset_vars_spec());
    r
}

/// The variables the shell is started with: a 256-color xterm with true
/// color, this program's name, and a history that leaves out commands
/// starting with a space.
pub open spec fn shell_env_spec() -> Seq<(Seq<char>, Seq<char>)> {
    seq![
        ("TERM"@, "xterm-256color"@),
        ("COLORTERM"@, "truecolor"@),
        ("TERM_PROGRAM"@, "tai"@),
        ("HISTCONTROL"@, "ignorespace"@),
    ]
}

/// [`shell_env_spec`].
pub fn shell_env() -> (r: Vec<(String, String)>)
    ensures
        r@.map_values(|p: (String, String)| (p.0@, p.1@)) == shell_env_spec(),
{
    let mut r: Vec<(String, String)> = Vec::new();
    r.push(("TERM".to_owned(), "xterm-256color".to_owned()));
    r.push(("COLORTERM".to_owned(), "truecolor".to_owned()));
    r.push(("TERM_PROGRAM".to_owned(), "tai".to_owned()));
    r.push(("HISTCONTROL".to_owned(), "ignorespace".to_owned()));
    assert(r@.map_values(|p: (String, String)| (p.0@, p.1@)) =~= shell_env_spec());
    r
}

/// The window's size in pixels reported to the shell: columns and rows
/// times the cell size, in 16 bits, wrapping as the size report does.
pub fn window_pixels(cols: u16, rows: u16, cell_width: i32, cell_height: i32) -> (r: (u16, u16))
    ensures
        r.0 == vstd::wrapping::u16_specs::wrapping_mul(cols, cell_width as u16),
        r.1 == vstd::wrapping::u16_specs::wrapping_mul(rows, cell_height as u16),
{
    let cw = #[verifier::truncate] (cell_width as u16);
    let ch = #[verifier::truncate] (cell_height as u16);
    (cols.wrapping_mul(cw), rows.wrapping_mul(ch))
}

} // verus!
