//! The decisions of the interactive Void prompt: which prompt to show, what a
//! typed line asks for, how a line joins the pending source, and whether an
//! error only means that the source is not finished yet.
use vstd::prelude::*;

use crate::text::{chars_of, contains, str_contains, trim, trim_bounds};

verus! {

/// What a line typed at the prompt asks for.
#[derive(Clone, Copy, Debug, PartialEq, Eq, Structural)]
pub enum ReplCommand {
    /// An empty line with nothing pending: show the prompt again.
    Skip,
    /// `.exit` or `.quit`.
    Exit,
    /// `.help`.
    Help,
    /// `.clear`.
    Clear,
    /// Anything else: source to run.
    Source,
}

pub open spec fn repl_command_spec(pending_empty: bool, line: Seq<char>) -> ReplCommand {
    let t = trim(line);
    if !pending_empty {
        ReplCommand::Source
    } else if t.len() == 0 {
        ReplCommand::Skip
    } else if t == ".exit"@ || t == ".quit"@ {
        ReplCommand::Exit
    } else if t == ".help"@ {
        ReplCommand::Help
    } else if t == ".clear"@ {
        ReplCommand::Clear
    } else {
        ReplCommand::Source
    }
}

/// The prompt: `> ` for a new input, `... ` while source is pending.
pub fn repl_prompt(pending_empty: bool) -> (s: &'static str)
    ensures
        s@ == (if pending_empty { "> "@ } else { "... "@ }),
{
    if pending_empty {
        "> "
    } else {
        "... "
    }
}

fn range_is(v: &[char], lo: usize, hi: usize, w: &str) -> (b: bool)
    requires
        lo <= hi <= v@.len(),
    ensures
        b == (v@.subrange(lo as int, hi as int) == w@),
{
    let wv = chars_of(w);
    if hi - lo != wv.len() {
        return false;
    }
    let mut k: usize = 0;
    while k < wv.len()
        invariant
            lo <= hi <= v@.len(),
            hi - lo == wv@.len(),
            wv@ == w@,
            k <= wv@.len(),
            forall|j: int| 0 <= j < k ==> v@[lo + j] == wv@[j],
        decreases wv.len() - k,
    {
        if v[lo + k] != wv[k] {
            assert(v@.subrange(lo as int, hi as int)[k as int] != w@[k as int]);
            return false;
        }
        k = k + 1;
    }
    assert(v@.subrange(lo as int, hi as int) =~= w@);
    true
}

/// What the line typed at the prompt asks for; commands count only when no
/// source is pending.
pub fn repl_command(pending_empty: bool, line: &str) -> (c: ReplCommand)
    ensures
        c == repl_command_spec(pending_empty, line@),
{
    if !pending_empty {
        return ReplCommand::Source;
    }
    let v = chars_of(line);
    let (lo, hi) = trim_bounds(v.as_slice());
    if lo == hi {
        ReplCommand::Skip
    } else if range_is(v.as_slice(), lo, hi, ".exit") || range_is(v.as_slice(), lo, hi, ".quit") {
        ReplCommand::Exit
    } else if range_is(v.as_slice(), lo, hi, ".help") {
        ReplCommand::Help
    } else if range_is(v.as_slice(), lo, hi, ".clear") {
        ReplCommand::Clear
    } else {
        ReplCommand::Source
    }
}

/// `s` without the carriage returns and newlines at its end.
pub open spec fn trim_line_end(s: Seq<char>) -> Seq<char>
    decreases s.len(),
{
    if s.len() > 0 && (s.last() == '\r' || s.last() == '\n') {
        trim_line_end(s.drop_last())
    } else {
        s
    }
}

/// The pending source after `line` is added: a newline separates it from what
/// was pending, and the line's own line ending is dropped.
pub open spec fn repl_append_spec(pending: Seq<char>, line: Seq<char>) -> Seq<char> {
    if pending.len() == 0 {
        trim_line_end(line)
    } else {
        pending.push('\n') + trim_line_end(line)
    }
}

pub fn repl_append(pending: &mut String, line: &str)
    ensures
        final(pending)@ == repl_append_spec(old(pending)@, line@),
{
    let v = chars_of(line);
    let mut hi = v.len();
    assert(v@.subrange(0, hi as int) == v@);
    while hi > 0 && (v[hi - 1] == '\r' || v[hi - 1] == '\n')
        invariant
            hi <= v@.len(),
            v@ == line@,
            trim_line_end(v@.subrange(0, hi as int)) == trim_line_end(line@),
        decreases hi,
    {
        proof {
            assert(v@.subrange(0, hi as int).drop_last() == v@.subrange(0, hi - 1));
        }
        hi = hi - 1;
    }
    proof {
        assert(v@.subrange(0, v@.len() as int) == v@);
        let u = v@.subrange(0, hi as int);
        assert(u.len() == 0 || !(u.last() == '\r' || u.last() == '\n'));
    }
    if !pending.as_str().is_empty() {
        pending.push('\n');
    }
    crate::text::push_range(pending, v.as_slice(), 0, hi);
}

/// An error that only means the source typed so far is unfinished.
pub open spec fn incomplete_input(err: Seq<char>) -> bool {
    contains(err, "Unterminated block"@) || contains(err, "Expected '}'"@) || contains(
        err,
        "Expected ')'"@,
    ) || contains(err, "Expected expression"@)
}

pub fn is_incomplete_repl_input(err: &str) -> (b: bool)
    ensures
        b == incomplete_input(err@),
{
    str_contains(err, "Unterminated block") || str_contains(err, "Expected '}'") || str_contains(
        err,
        "Expected ')'",
    ) || str_contains(err, "Expected expression")
}

// ---------------------------------------------------------------------------
// The command line
// ---------------------------------------------------------------------------

/// What the `void` command line asks for.
#[derive(Clone, Copy, Debug, PartialEq, Eq, Structural)]
pub enum LaunchAction {
    /// No arguments: the interactive prompt.
    Repl,
    /// `--help` or `-h`.
    Help,
    /// `--version` or `-v`.
    Version,
    /// A script or directory to run, with the remaining arguments.
    Run,
}

pub open spec fn launch_spec(first: Option<Seq<char>>) -> LaunchAction {
    match first {
        None => LaunchAction::Repl,
        Some(a) => if a == "--help"@ || a == "-h"@ {
            LaunchAction::Help
        } else if a == "--version"@ || a == "-v"@ {
            LaunchAction::Version
        } else {
            LaunchAction::Run
        },
    }
}

/// Decides from the arguments after the program name.
pub fn launch_action(args: &[String]) -> (r: LaunchAction)
    ensures
        r == launch_spec(if args@.len() == 0 {
            None
        } else {
            Some(args@[0]@)
        }),
{
    if args.len() == 0 {
        return LaunchAction::Repl;
    }
    let a = args[0].as_str();
    if crate::text::str_eq(a, "--help") || crate::text::str_eq(a, "-h") {
        LaunchAction::Help
    } else if crate::text::str_eq(a, "--version") || crate::text::str_eq(a, "-v") {
        LaunchAction::Version
    } else {
        LaunchAction::Run
    }
}

/// The arguments a script receives: all after its path.
pub fn script_args(args: &[String]) -> (r: Vec<String>)
    ensures
        args@.len() <= 1 ==> r@.len() == 0,
        args@.len() > 1 ==> r@ == args@.skip(1),
{
    let mut out: Vec<String> = Vec::new();
    let mut i: usize = 1;
    while i < args.len()
        invariant
            1 <= i,
            i <= args@.len() || args@.len() == 0,
            args@.len() > 0 ==> out@ == args@.subrange(1, i as int),
            args@.len() == 0 ==> out@.len() == 0,
        decreases args.len() - i,
    {
        out.push(args[i].clone());
        i = i + 1;
    }
    proof {
        if args@.len() > 1 {
            assert(out@ =~= args@.skip(1));
        }
    }
    out
}

} // verus!
