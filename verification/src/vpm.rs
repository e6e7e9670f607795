//! The rules of `vpm`, the Void package manager.
pub mod cli;
pub mod commands;
pub mod json;
pub mod logging;
pub mod names;
pub mod npm;
pub mod npm_import;
pub mod store;
