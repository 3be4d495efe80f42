//! Local companion for a remote test runner: resolves the runner's
//! sandboxed paths onto the project tree, and renders its results.

pub mod cli;
pub mod config;
pub mod formatter;
pub mod lines;
pub mod output;
pub mod resolver;
pub mod session;
pub mod style;
pub mod text;
