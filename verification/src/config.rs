//! Settings of the terminal and of the AI assistant, with their defaults,
//! and how the API key is chosen.
use vstd::prelude::*;

verus! {

/// All settings.
pub struct TaiConfig {
    pub ai: AiConfig,
    pub terminal: TerminalConfig,
    pub keybindings: KeybindingsConfig,
}

/// Settings of the AI assistant.
pub struct AiConfig {
    pub model: String,
    pub api_key: String,
    pub auto_execute: bool,
    pub max_context_lines: usize,
    pub max_history: usize,
}

/// Settings of the terminal.
pub struct TerminalConfig {
    pub font_size: i32,
    pub scrollback: u32,
}

/// Key bindings.
pub struct KeybindingsConfig {
    pub ai_toggle: String,
}

impl Default for AiConfig {
    /// Model `gpt-5.4`, no key, confirmation before commands run, 100
    /// lines of context and 20 exchanges of history.
    fn default() -> (r: Self)
        ensures
            r.model@ == "gpt-5.4"@,
            r.api_key@ == Seq::<char>::empty(),
            !r.auto_execute,
            r.max_context_lines == 100,
            r.max_history == 20,
    {
        AiConfig {
            model: "gpt-5.4".to_owned(),
            api_key: String::new(),
            auto_execute: false,
            max_context_lines: 100,
            max_history: 20,
        }
    }
}

impl Default for TerminalConfig {
    /// Font size 16 and a scrollback of 100,000 lines.
    fn default() -> (r: Self)
        ensures
            r.font_size == 16,
            r.scrollback == 100000,
    {
        TerminalConfig { font_size: 16, scrollback: 100000 }
    }
}

impl Default for KeybindingsConfig {
    /// The AI prompt on `ctrl+/`.
    fn default() -> (r: Self)
        ensures
            r.ai_toggle@ == "ctrl+/"@,
    {
        KeybindingsConfig { ai_toggle: "ctrl+/".to_owned() }
    }
}

impl Default for TaiConfig {
    /// Every section at its default.
    fn default() -> (r: Self)
        ensures
            r.ai.model@ == "gpt-5.4"@,
            r.ai.api_key@ == Seq::<char>::empty(),
            !r.ai.auto_execute,
            r.ai.max_context_lines == 100,
            r.ai.max_history == 20,
            r.terminal.font_size == 16,
            r.terminal.scrollback == 100000,
            r.keybindings.ai_toggle@ == "ctrl+/"@,
    {
        TaiConfig {
            ai: AiConfig::default(),
            terminal: TerminalConfig::default(),
            keybindings: KeybindingsConfig::default(),
        }
    }
}

/// The key in effect: a non-empty `OPENAI_API_KEY` from the environment
/// first, then a non-empty key from the configuration, otherwise none.
pub open spec fn api_key_spec(env_key: Option<Seq<char>>, config_key: Seq<char>) -> Option<Seq<char>> {
    match env_key {
        Some(k) if k.len() > 0 => Some(k),
        _ => if config_key.len() > 0 {
            Some(config_key)
        } else {
            None
        },
    }
}

impl TaiConfig {
    /// The API key in effect, given the value of `OPENAI_API_KEY` in the
    /// environment (see [`api_key_spec`]).
    pub fn api_key(&self, env_key: Option<&str>) -> (r: Option<String>)
        ensures
            match (r, api_key_spec(
                match env_key {
                    Some(k) => Some(k@),
                    None => None,
                },
                self.ai.api_key@,
            )) {
                (Some(a), Some(b)) => a@ == b,
                (None, None) => true,
                _ => false,
            },
    {
        if let Some(key) = env_key {
            if !key.is_empty() {
                return Some(key.to_owned());
            }
        }
        if !self.ai.api_key.as_str().is_empty() {
            return Some(self.ai.api_key.clone());
        }
        None
    }

    /// Whether an API key is in effect, so that the assistant can be used.
    pub fn ai_enabled(&self, env_key: Option<&str>) -> (r: bool)
        ensures
            r == api_key_spec(
                match env_key {
                    Some(k) => Some(k@),
                    None => None,
                },
                self.ai.api_key@,
            ) is Some,
    {
        self.api_key(env_key).is_some()
    }
}


impl TaiConfig {
    /// The configuration file, when the environment names a configuration
    /// directory (see [`crate::session::state_path_in`]).
    pub fn config_path() -> (r: Option<String>)
        ensures
            r matches Some(p) ==> exists|c: Seq<char>|
                p@ == crate::session::join_path(#[trigger] crate::session::state_dir(c), "config.toml"@),
    {
        crate::session::state_path_in(crate::session::config_dir_text(), "config.toml")
    }
}

/// A line of `env` output split at its first `'='` into name and value;
/// `None` for a line without one.
pub open spec fn env_pair_spec(line: Seq<char>) -> Option<(Seq<char>, Seq<char>)> {
    match crate::text::find_first(line, seq!['=']) {
        Some(p) => Some((line.subrange(0, p), line.subrange(p + 1, line.len() as int))),
        None => None,
    }
}

/// The name-value pairs of the lines of `env` output, in order.
pub open spec fn env_pairs_spec(lines: Seq<Seq<char>>) -> Seq<(Seq<char>, Seq<char>)>
    decreases lines.len(),
{
    if lines.len() == 0 {
        Seq::empty()
    } else {
        let rest = env_pairs_spec(lines.drop_last());
        match env_pair_spec(lines.last()) {
            Some(p) => rest.push(p),
            None => rest,
        }
    }
}

/// Views of name-value pairs.
pub open spec fn pairs_view(v: Seq<(String, String)>) -> Seq<(Seq<char>, Seq<char>)> {
    v.map_values(|p: (String, String)| (p.0@, p.1@))
}

/// The variables that the output of a login shell's `env` sets, in order.
pub fn env_pairs(text: &str) -> (r: Vec<(String, String)>)
    ensures
        pairs_view(r@) == env_pairs_spec(crate::text::lines_spec(text@)),
{
    let lines = crate::text::lines_of(text);
    let ghost ls = crate::text::lines_spec(text@);
    let eq: Vec<char> = vec!['='];
    assert(eq@ =~= seq!['=']);
    let mut out: Vec<(String, String)> = Vec::new();
    let mut i: usize = 0;
    while i < lines.len()
        invariant
            i <= lines@.len(),
            lines@.len() == ls.len(),
            forall|k: int| 0 <= k < ls.len() ==> (#[trigger] lines@[k])@ == ls[k],
            eq@ == seq!['='],
            pairs_view(out@) == env_pairs_spec(ls.subrange(0, i as int)),
        decreases lines@.len() - i,
    {
        let ghost q = ls.subrange(0, i as int + 1);
        assert(q.drop_last() =~= ls.subrange(0, i as int));
        assert(q.last() == ls[i as int]);
        let line = &lines[i];
        match crate::text::find_first_exec(line.as_slice(), &eq) {
            Some(p) => {
                assert(crate::text::occurs_at(line@, eq@, p as int));
                assert(line@.len() == line.len());
                let key = crate::text::string_of(&crate::text::chars_range(line.as_slice(), 0, p));
                let val = crate::text::string_of(
                    &crate::text::chars_range(line.as_slice(), p + 1, line.len()),
                );
                let ghost before = out@;
                out.push((key, val));
                assert(pairs_view(out@) =~= pairs_view(before).push(
                    (out@[before.len() as int].0@, out@[before.len() as int].1@),
                ));
            },
            None => {},
        }
        i += 1;
    }
    assert(ls.subrange(0, ls.len() as int) == ls);
    out
}

/// A variable of the login shell that the terminal takes over: the API
/// keys, and the `TAI_` settings not already set.
pub open spec fn inherits_var_spec(key: Seq<char>, already_set: bool) -> bool {
    key == "OPENAI_API_KEY"@ || key == "ANTHROPIC_API_KEY"@ || (key.len() >= 4 && key.subrange(0, 4)
        == "TAI_"@ && !already_set)
}

/// [`inherits_var_spec`].
pub fn inherits_var(key: &str, already_set: bool) -> (r: bool)
    ensures
        r == inherits_var_spec(key@, already_set),
{
    if crate::text::str_eq(key, "OPENAI_API_KEY") || crate::text::str_eq(key, "ANTHROPIC_API_KEY") {
        return true;
    }
    let v = crate::text::chars_of(key);
    let p = crate::text::chars_of("TAI_");
    proof {
        reveal_strlit("TAI_");
    }
    if v.len() >= 4 {
        let head = crate::text::chars_range(&v, 0, 4);
        crate::text::seq_eq(&head, &p) && !already_set
    } else {
        false
    }
}

} // verus!
