//! Void: the lexer and parser of the Void scripting language, and the
//! rules of its package manager and package registry.
use vstd::prelude::*;

pub mod text;
pub mod lexer;
pub mod ast;
pub mod parser;
pub mod diagnostics;
pub mod repl;
pub mod modules;
pub mod clock;
pub mod paths;
pub mod vpm;
pub mod registry;

verus! {

} // verus!
