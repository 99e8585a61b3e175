//! Batch backup orchestration around an external file-synchronisation tool.
//!
//! A configuration file holds one stanza per task. This crate models the
//! tasks, reads and writes the stanza format, composes the argument list
//! handed to the synchronisation tool and decides how a run proceeds from one
//! task to the next. Reading files, prompting and spawning processes are left
//! to the caller.

pub mod config;
pub mod editor;
pub mod invocation;
pub mod parser;
pub mod reader;
pub mod round_trip;
pub mod run;
pub mod stanza;
pub mod task;
pub mod text;
pub mod writer;
