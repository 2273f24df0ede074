//! The command registry and dispatch engine of a command-line snippet
//! manager.
//!
//! A catalog of stored snippets is turned into a command tree on every run:
//! the primary tree offers `list`, `new` and one command per verb, each with
//! one subcommand per snippet; the flat tree offers each snippet as a command
//! of its own. The words of an invocation are resolved against the tree to
//! the one thing they ask for, and that is dispatched to the one call it
//! stands for.
//!
//! - [`catalog`]: the snippets, the verbs, and the names that are taken.
//! - [`text`] and [`template`]: help texts rendered from templates.
//! - [`tree`]: the command tree and its two builders.
//! - [`resolve`]: from the words of an invocation to a resolution outcome.
//! - [`dispatch`]: from an outcome to an action, and on to an exit code.
//! - [`cli`]: the tree as a `clap::Command`.
//! - [`completions`]: the request for a shell-completion script.

pub mod catalog;
pub mod cli;
pub mod completions;
pub mod dispatch;
pub mod resolve;
pub mod template;
pub mod text;
pub mod tree;
