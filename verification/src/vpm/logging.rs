//! The look of `vpm`'s output: colour decisions, icons and log lines.
//!
//! The settings chosen on the command line live in a [`CliRuntimeConfig`];
//! what the environment says about colour is read by the caller into a
//! [`TermEnv`]. Every function here only builds text; printing is the
//! caller's part.
use vstd::prelude::*;

use crate::diagnostics::{colored, color_wanted, supports_color};
use crate::text::push_str;
use crate::vpm::cli::ColorMode;

verus! {

/// The settings given on the command line, with the colour mode kept as its
/// one-byte code.
pub struct CliRuntimeConfig {
    pub verbose: bool,
    pub color: u8,
}

/// What the environment says about colour.
pub struct TermEnv {
    /// `NO_COLOR` is set.
    pub no_color: bool,
    /// The value of `CLICOLOR_FORCE`, if set.
    pub clicolor_force: Option<String>,
    /// The value of `CLICOLOR`, if set.
    pub clicolor: Option<String>,
    pub stdout_is_terminal: bool,
    pub stderr_is_terminal: bool,
}

/// The byte that stands for a colour mode.
pub open spec fn color_code(m: ColorMode) -> u8 {
    match m {
        ColorMode::Auto => 0,
        ColorMode::Always => 1,
        ColorMode::Never => 2,
    }
}

/// The colour mode a byte stands for; unknown bytes mean `Auto`.
pub open spec fn color_of_code(c: u8) -> ColorMode {
    if c == 1 {
        ColorMode::Always
    } else if c == 2 {
        ColorMode::Never
    } else {
        ColorMode::Auto
    }
}

pub open spec fn opt_string(o: Option<String>) -> Option<Seq<char>> {
    match o {
        Some(s) => Some(s@),
        None => None,
    }
}

/// Whether output to standard error (or, when `!stderr`, standard output) is
/// coloured.
pub open spec fn color_on(cfg: CliRuntimeConfig, env: TermEnv, stderr: bool) -> bool {
    match color_of_code(cfg.color) {
        ColorMode::Always => true,
        ColorMode::Never => false,
        ColorMode::Auto => color_wanted(
            env.no_color,
            opt_string(env.clicolor_force),
            opt_string(env.clicolor),
            if stderr {
                env.stderr_is_terminal
            } else {
                env.stdout_is_terminal
            },
        ),
    }
}

/// `text` in the ANSI style `code`, when colour is on.
pub open spec fn painted(code: Seq<char>, text: Seq<char>, on: bool) -> Seq<char> {
    colored("\u{1b}["@ + code + "m"@, text, on)
}

impl CliRuntimeConfig {
    /// Quiet output in the `Auto` colour mode, as before any option is read.
    pub fn new() -> (c: Self)
        ensures
            !c.verbose,
            color_of_code(c.color) == ColorMode::Auto,
    {
        CliRuntimeConfig { verbose: false, color: 0 }
    }
}

fn code_of(m: ColorMode) -> (c: u8)
    ensures
        c == color_code(m),
{
    match m {
        ColorMode::Auto => 0,
        ColorMode::Always => 1,
        ColorMode::Never => 2,
    }
}

/// Records the command line's `--verbose` and `--color`.
pub fn set_cli_runtime_config(config: &mut CliRuntimeConfig, verbose: bool, color: ColorMode)
    ensures
        final(config).verbose == verbose,
        final(config).color == color_code(color),
        color_of_code(final(config).color) == color,
{
    config.verbose = verbose;
    config.color = code_of(color);
}

pub fn verbose_enabled(config: &CliRuntimeConfig) -> (b: bool)
    ensures
        b == config.verbose,
{
    config.verbose
}

pub fn color_mode(config: &CliRuntimeConfig) -> (m: ColorMode)
    ensures
        m == color_of_code(config.color),
{
    if config.color == 1 {
        ColorMode::Always
    } else if config.color == 2 {
        ColorMode::Never
    } else {
        ColorMode::Auto
    }
}

/// The mode read back from its code is the mode that was stored.
pub proof fn law_color_code_round_trip(m: ColorMode)
    ensures
        color_of_code(color_code(m)) == m,
{
}

fn opt_str(o: &Option<String>) -> (r: Option<&str>)
    ensures
        crate::diagnostics::opt_view(r) == opt_string(*o),
{
    match o {
        Some(s) => Some(s.as_str()),
        None => None,
    }
}

/// Whether a stream gets colour under these settings.
pub fn use_color(config: &CliRuntimeConfig, env: &TermEnv, stderr: bool) -> (b: bool)
    ensures
        b == color_on(*config, *env, stderr),
{
    match color_mode(config) {
        ColorMode::Always => true,
        ColorMode::Never => false,
        ColorMode::Auto => supports_color(
            env.no_color,
            opt_str(&env.clicolor_force),
            opt_str(&env.clicolor),
            if stderr {
                env.stderr_is_terminal
            } else {
                env.stdout_is_terminal
            },
        ),
    }
}

/// `text` in the ANSI style `ansi_code` when the stream gets colour.
pub fn paint(
    config: &CliRuntimeConfig,
    env: &TermEnv,
    text: &str,
    ansi_code: &str,
    stderr: bool,
) -> (s: String)
    ensures
        s@ == painted(ansi_code@, text@, color_on(*config, *env, stderr)),
{
    if use_color(config, env, stderr) {
        let mut s = String::from_str("\u{1b}[");
        push_str(&mut s, ansi_code);
        push_str(&mut s, "m");
        push_str(&mut s, text);
        push_str(&mut s, "\u{1b}[0m");
        s
    } else {
        String::from_str(text)
    }
}

/// Dim text for standard output.
pub fn muted(config: &CliRuntimeConfig, env: &TermEnv, text: &str) -> (s: String)
    ensures
        s@ == painted("2"@, text@, color_on(*config, *env, false)),
{
    paint(config, env, text, "2", false)
}

pub fn icon_success(config: &CliRuntimeConfig, env: &TermEnv) -> (s: String)
    ensures
        s@ == painted("1;32"@, "✓"@, color_on(*config, *env, false)),
{
    paint(config, env, "✓", "1;32", false)
}

pub fn icon_info(config: &CliRuntimeConfig, env: &TermEnv) -> (s: String)
    ensures
        s@ == painted("1;36"@, "ℹ"@, color_on(*config, *env, false)),
{
    paint(config, env, "ℹ", "1;36", false)
}

pub fn icon_warn(config: &CliRuntimeConfig, env: &TermEnv) -> (s: String)
    ensures
        s@ == painted("1;33"@, "⚠"@, color_on(*config, *env, false)),
{
    paint(config, env, "⚠", "1;33", false)
}

pub fn icon_error(config: &CliRuntimeConfig, env: &TermEnv) -> (s: String)
    ensures
        s@ == painted("1;31"@, "✗"@, color_on(*config, *env, true)),
{
    paint(config, env, "✗", "1;31", true)
}

pub fn icon_loader(config: &CliRuntimeConfig, env: &TermEnv) -> (s: String)
    ensures
        s@ == painted("1;34"@, "⟳"@, color_on(*config, *env, false)),
{
    paint(config, env, "⟳", "1;34", false)
}

fn icon_line(icon: String, message: &str) -> (s: String)
    ensures
        s@ == icon@ + " "@ + message@,
{
    let mut s = icon;
    push_str(&mut s, " ");
    push_str(&mut s, message);
    s
}

/// The line `log_success` prints on standard output.
pub fn success_line(config: &CliRuntimeConfig, env: &TermEnv, message: &str) -> (s: String)
    ensures
        s@ == painted("1;32"@, "✓"@, color_on(*config, *env, false)) + " "@ + message@,
{
    icon_line(icon_success(config, env), message)
}

/// The line `log_info` prints on standard output.
pub fn info_line(config: &CliRuntimeConfig, env: &TermEnv, message: &str) -> (s: String)
    ensures
        s@ == painted("1;36"@, "ℹ"@, color_on(*config, *env, false)) + " "@ + message@,
{
    icon_line(icon_info(config, env), message)
}

/// The line `log_warn` prints on standard output.
pub fn warn_line(config: &CliRuntimeConfig, env: &TermEnv, message: &str) -> (s: String)
    ensures
        s@ == painted("1;33"@, "⚠"@, color_on(*config, *env, false)) + " "@ + message@,
{
    icon_line(icon_warn(config, env), message)
}

/// The line `log_error` prints on standard error.
pub fn error_line(config: &CliRuntimeConfig, env: &TermEnv, message: &str) -> (s: String)
    ensures
        s@ == painted("1;31"@, "✗"@, color_on(*config, *env, true)) + " "@ + painted(
            "31"@,
            message@,
            color_on(*config, *env, true),
        ),
{
    let body = paint(config, env, message, "31", true);
    icon_line(icon_error(config, env), body.as_str())
}

/// The line `log_verbose` prints on standard output; none unless verbose.
pub fn verbose_line(config: &CliRuntimeConfig, env: &TermEnv, message: &str) -> (r: Option<String>)
    ensures
        match r {
            Some(s) => config.verbose && s@ == painted(
                "2;36"@,
                "›"@,
                color_on(*config, *env, false),
            ) + " "@ + painted("2;36"@, message@, color_on(*config, *env, false)),
            None => !config.verbose,
        },
{
    if verbose_enabled(config) {
        let marker = paint(config, env, "›", "2;36", false);
        let body = paint(config, env, message, "2;36", false);
        Some(icon_line(marker, body.as_str()))
    } else {
        None
    }
}

// ---------------------------------------------------------------------------
// Tasks in progress
// ---------------------------------------------------------------------------

/// A task in progress, shown with a spinner icon and later with its time.
pub struct Loader {
    pub label: String,
}

impl Loader {
    /// Starts a task; gives the loader and the line to print.
    pub fn start(config: &CliRuntimeConfig, env: &TermEnv, label: &str) -> (r: (Loader, String))
        ensures
            r.0.label@ == label@,
            r.1@ == painted("1;34"@, "⟳"@, color_on(*config, *env, false)) + " "@ + label@,
    {
        let line = icon_line(icon_loader(config, env), label);
        (Loader { label: String::from_str(label) }, line)
    }

    /// Ends the task; gives the line to print, with the time it took as the
    /// caller wrote it.
    pub fn done(self, config: &CliRuntimeConfig, env: &TermEnv, elapsed: &str) -> (s: String)
        ensures
            s@ == painted("1;32"@, "✓"@, color_on(*config, *env, false)) + " "@ + self.label@
                + " "@ + painted("2"@, "("@ + elapsed@ + ")"@, color_on(*config, *env, false)),
    {
        let mut inner = String::from_str("(");
        push_str(&mut inner, elapsed);
        push_str(&mut inner, ")");
        let time = muted(config, env, inner.as_str());
        let mut s = icon_line(icon_success(config, env), self.label.as_str());
        push_str(&mut s, " ");
        push_str(&mut s, time.as_str());
        s
    }
}

} // verus!
