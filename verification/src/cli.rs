//! The command line: `--export <name>`, `--import <name>`, `--reset` and
//! `--list-sessions`, and what the program does at start because of them.
use vstd::prelude::*;

use crate::text::str_eq;

verus! {

/// The options given on the command line.
pub struct CliOptions {
    pub export: Option<String>,
    pub import: Option<String>,
    pub reset: bool,
    pub list: bool,
}

/// The plain content of [`CliOptions`].
pub struct CliView {
    pub export: Option<Seq<char>>,
    pub import: Option<Seq<char>>,
    pub reset: bool,
    pub list: bool,
}

/// The view of an optional string.
pub open spec fn opt_view(s: Option<String>) -> Option<Seq<char>> {
    match s {
        Some(t) => Some(t@),
        None => None,
    }
}

impl View for CliOptions {
    type V = CliView;

    open spec fn view(&self) -> CliView {
        CliView { export: opt_view(self.export), import: opt_view(self.import), reset: self.reset, list: self.list }
    }
}

/// A command line that cannot be used.
#[derive(Clone, Copy, Debug, PartialEq, Eq, Structural)]
pub enum CliError {
    /// `--export` is the last argument.
    ExportNeedsName,
    /// `--import` is the last argument.
    ImportNeedsName,
}

impl CliError {
    /// The message printed for the error.
    pub fn message(&self) -> (r: String)
        ensures
            r@ == match self {
                CliError::ExportNeedsName => "Error: --export requires a session name."@,
                CliError::ImportNeedsName => "Error: --import requires a session name."@,
            },
    {
        match self {
            CliError::ExportNeedsName => "Error: --export requires a session name.".to_owned(),
            CliError::ImportNeedsName => "Error: --import requires a session name.".to_owned(),
        }
    }
}

/// Reading the arguments from index `i` on, with the options read so far.
/// A flag that takes a name takes the next argument, whatever it is; a later
/// flag of the same kind replaces an earlier one; other arguments are
/// skipped.
pub open spec fn parse_from(args: Seq<Seq<char>>, i: int, acc: CliView) -> Result<CliView, CliError>
    decreases args.len() - i,
{
    if i < 1 || i >= args.len() {
        Ok(acc)
    } else if args[i] == "--export"@ {
        if i + 1 < args.len() {
            parse_from(args, i + 2, CliView { export: Some(args[i + 1]), ..acc })
        } else {
            Err(CliError::ExportNeedsName)
        }
    } else if args[i] == "--import"@ {
        if i + 1 < args.len() {
            parse_from(args, i + 2, CliView { import: Some(args[i + 1]), ..acc })
        } else {
            Err(CliError::ImportNeedsName)
        }
    } else if args[i] == "--reset"@ {
        parse_from(args, i + 1, CliView { reset: true, ..acc })
    } else if args[i] == "--list-sessions"@ {
        parse_from(args, i + 1, CliView { list: true, ..acc })
    } else {
        parse_from(args, i + 1, acc)
    }
}

/// The options of a command line whose first argument is the program.
pub open spec fn parse_cli_spec(args: Seq<Seq<char>>) -> Result<CliView, CliError> {
    parse_from(args, 1, CliView { export: None, import: None, reset: false, list: false })
}

/// Reads the command line (the program's name first), as [`parse_cli_spec`].
pub fn parse_cli(args: &[String]) -> (r: Result<CliOptions, CliError>)
    ensures
        match (r, parse_cli_spec(crate::text::strings_view(args@))) {
            (Ok(o), Ok(v)) => o@ == v,
            (Err(e), Err(f)) => e == f,
            _ => false,
        },
{
    let ghost av = crate::text::strings_view(args@);
    let mut o = CliOptions { export: None, import: None, reset: false, list: false };
    let mut i: usize = 1;
    while i < args.len()
        invariant
            1 <= i,
            av == crate::text::strings_view(args@),
            av.len() == args@.len(),
            parse_from(av, i as int, o@) == parse_cli_spec(av),
        decreases args@.len() - i,
    {
        assert(av[i as int] == args@[i as int]@);
        let a = args[i].as_str();
        if str_eq(a, "--export") {
            if i + 1 < args.len() {
                assert(av[i + 1] == args@[i + 1]@);
                o.export = Some(args[i + 1].clone());
                i += 2;
            } else {
                return Err(CliError::ExportNeedsName);
            }
        } else if str_eq(a, "--import") {
            if i + 1 < args.len() {
                assert(av[i + 1] == args@[i + 1]@);
                o.import = Some(args[i + 1].clone());
                i += 2;
            } else {
                return Err(CliError::ImportNeedsName);
            }
        } else if str_eq(a, "--reset") {
            o.reset = true;
            i += 1;
        } else if str_eq(a, "--list-sessions") {
            o.list = true;
            i += 1;
        } else {
            i += 1;
        }
    }
    Ok(o)
}

/// Where the program takes its session from when it starts.
#[derive(Clone, Debug, PartialEq, Eq)]
pub enum SessionSource {
    /// None: the saved session was reset.
    Fresh,
    /// A session exported under a name.
    Import(String),
    /// The session saved last.
    Saved,
}

/// What the program does at start.
#[derive(Clone, Debug, PartialEq, Eq)]
pub enum StartupPlan {
    /// Print the saved sessions and exit.
    ListSessions,
    /// Export the current session under a name and exit.
    Export(String),
    /// Open the window, after resetting the saved session when asked.
    Run { reset: bool, source: SessionSource },
}

/// The plan for the options: listing first, then exporting; otherwise the
/// window opens with a fresh session after a reset, an imported one, or
/// the saved one.
pub fn startup_plan(o: &CliOptions) -> (r: StartupPlan)
    ensures
        o.list ==> r == StartupPlan::ListSessions,
        !o.list && o.export is Some ==> (r matches StartupPlan::Export(n) && n@ == o.export->0@),
        !o.list && o.export is None ==> (r matches StartupPlan::Run { reset, source } && reset == o.reset
            && if o.reset {
            source == SessionSource::Fresh
        } else {
            match o.import {
                Some(n) => source matches SessionSource::Import(m) && m@ == n@,
                None => source == SessionSource::Saved,
            }
        }),
{
    if o.list {
        return StartupPlan::ListSessions;
    }
    match &o.export {
        Some(n) => {
            return StartupPlan::Export(n.clone());
        },
        None => {},
    }
    let source = if o.reset {
        SessionSource::Fresh
    } else {
        match &o.import {
            Some(n) => SessionSource::Import(n.clone()),
            None => SessionSource::Saved,
        }
    };
    StartupPlan::Run { reset: o.reset, source }
}

/// The window's first size: the saved one, or 1200 by 750 where none was
/// saved.
pub fn initial_window_size(saved_w: i32, saved_h: i32) -> (r: (i32, i32))
    ensures
        r.0 == if saved_w > 0 {
            saved_w
        } else {
            1200
        },
        r.1 == if saved_h > 0 {
            saved_h
        } else {
            750
        },
{
    (if saved_w > 0 {
        saved_w
    } else {
        1200
    }, if saved_h > 0 {
        saved_h
    } else {
        750
    })
}

} // verus!
