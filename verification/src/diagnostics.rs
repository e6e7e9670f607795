//! Terminal colouring of the runtime's messages.
//!
//! Whether a stream gets colour is decided from facts about the environment
//! (`NO_COLOR`, `CLICOLOR_FORCE`, `CLICOLOR`, whether the stream is a
//! terminal), which the caller reads and hands in.
use vstd::prelude::*;

use crate::text::str_eq;

verus! {

/// `text` wrapped in the ANSI escape `code` and a reset, when `on`.
pub open spec fn colored(code: Seq<char>, text: Seq<char>, on: bool) -> Seq<char> {
    if on {
        code + text + "\u{1b}[0m"@
    } else {
        text
    }
}

/// Colour is used unless `NO_COLOR` is set; it is forced by `CLICOLOR_FORCE=1`,
/// refused by `CLICOLOR=0`, and otherwise used on terminals only.
pub open spec fn color_wanted(
    no_color: bool,
    clicolor_force: Option<Seq<char>>,
    clicolor: Option<Seq<char>>,
    is_terminal: bool,
) -> bool {
    if no_color {
        false
    } else if clicolor_force == Some("1"@) {
        true
    } else if clicolor == Some("0"@) {
        false
    } else {
        is_terminal
    }
}

pub open spec fn opt_view(o: Option<&str>) -> Option<Seq<char>> {
    match o {
        Some(s) => Some(s@),
        None => None,
    }
}

fn is_text(o: Option<&str>, expected: &str) -> (b: bool)
    ensures
        b == (opt_view(o) == Some(expected@)),
{
    match o {
        Some(s) => str_eq(s, expected),
        None => false,
    }
}

/// Whether a stream should be coloured, given what the environment says.
pub fn supports_color(
    no_color: bool,
    clicolor_force: Option<&str>,
    clicolor: Option<&str>,
    is_terminal: bool,
) -> (b: bool)
    ensures
        b == color_wanted(no_color, opt_view(clicolor_force), opt_view(clicolor), is_terminal),
{
    if no_color {
        return false;
    }
    if is_text(clicolor_force, "1") {
        return true;
    }
    if is_text(clicolor, "0") {
        return false;
    }
    is_terminal
}

fn wrap(code: &str, text: &str, color: bool) -> (s: String)
    ensures
        s@ == colored(code@, text@, color),
{
    if color {
        let mut s = String::from_str(code);
        s.append(text);
        s.append("\u{1b}[0m");
        s
    } else {
        String::from_str(text)
    }
}

/// A bold red label for standard error.
pub fn error_label(text: &str, color: bool) -> (s: String)
    ensures
        s@ == colored("\u{1b}[1;31m"@, text@, color),
{
    wrap("\u{1b}[1;31m", text, color)
}

/// Red text for standard error.
pub fn error_text(text: &str, color: bool) -> (s: String)
    ensures
        s@ == colored("\u{1b}[31m"@, text@, color),
{
    wrap("\u{1b}[31m", text, color)
}

/// A bold cyan label for standard output.
pub fn info_label(text: &str, color: bool) -> (s: String)
    ensures
        s@ == colored("\u{1b}[1;36m"@, text@, color),
{
    wrap("\u{1b}[1;36m", text, color)
}

/// Cyan text for standard output.
pub fn info_text(text: &str, color: bool) -> (s: String)
    ensures
        s@ == colored("\u{1b}[36m"@, text@, color),
{
    wrap("\u{1b}[36m", text, color)
}

/// Bold green text for standard output.
pub fn success_text(text: &str, color: bool) -> (s: String)
    ensures
        s@ == colored("\u{1b}[1;32m"@, text@, color),
{
    wrap("\u{1b}[1;32m", text, color)
}

} // verus!
