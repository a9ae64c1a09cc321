//! An interactive command launcher library.
//!
//! A declarative tree of menus (`Select`) and leaf actions (`Command`) is
//! resolved, one interactive step at a time, to at most one shell command.
//! The resolution engine is a state machine: it hands the caller a request
//! (show a picker, read a line, run a shell command), and the caller feeds
//! the result back in.  Placeholder substitution, candidate formatting,
//! cancellation propagation and picker-option derivation are verified here;
//! the terminal, subprocess and file-system work stays with the caller.

pub mod engine;
pub mod picker;
pub mod shell;
pub mod template;
pub mod text;
pub mod tree;
