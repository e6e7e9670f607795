//! The command line of `vpm`, as plain data: what the user asked for.
use vstd::prelude::*;

verus! {

/// The registry used when `--registry` is not given.
pub const DEFAULT_REGISTRY: &'static str = "https://vpm.voidium.uk/";

/// When output is coloured.
#[derive(Clone, Copy, Debug, PartialEq, Eq, Structural)]
pub enum ColorMode {
    Auto,
    Always,
    Never,
}

/// The parsed command line.
#[derive(Debug)]
pub struct Cli {
    pub verbose: bool,
    pub color: ColorMode,
    pub command: Option<Commands>,
}

/// The subcommands of `vpm`.
#[allow(inconsistent_fields)]
#[derive(Debug)]
pub enum Commands {
    Init { name: Option<String> },
    Publish {
        registry: String,
        token: Option<String>,
        github: Option<String>,
        file: Option<String>,
    },
    Login { username: String, password: String, registry: String },
    Logout { registry: String },
    Whoami { registry: String },
    Search { query: String, registry: String },
    Info { name: String, version: Option<String>, registry: String, readme: bool },
    List,
    Uninstall { name: String },
    Clean { lock: bool, cache: bool, imports: bool, all: bool },
    Doctor { registry: String },
    Install { name: Option<String>, version: Option<String>, registry: String },
    NpmImport {
        package: String,
        version: Option<String>,
        alias: Option<String>,
        install: bool,
        registry: String,
        token: Option<String>,
        with_npm_deps: bool,
        out_dir: Option<String>,
    },
}

} // verus!
