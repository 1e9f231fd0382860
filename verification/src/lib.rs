//! Verb dispatch and command templating for an interactive file-tree
//! navigator.
//!
//! A verb is a named action bound to an invocation key. Triggered against
//! the currently selected path, it either maps to one of a fixed set of
//! built-in navigation actions or expands a `{placeholder}` command
//! template and hands the resolved command line to an external launcher.

pub mod path;
pub mod state;
pub mod strutil;
pub mod template;
pub mod verbs;
