//! A pipeline-configuration compiler for a log-processing tool.
//!
//! - `ast`: the syntax tree of a configuration and its mathematical model.
//! - `grammar`: the configuration language, as spec functions over bytes.
//! - `parser`: the parser, proved to agree with `grammar`.
//! - `visit`: a walk that calls one hook per statement.
//! - `compile`: turns a configuration into pipeline sections, collecting
//!   diagnostics.
//! - `plugin`, `pipeline`: input plugins, and how an input section fans them
//!   out into one instance per worker.
//! - `rule`, `entry`, `echelon0`: the line-extraction rules of the log tool,
//!   the extraction of an entry from a line, and its line filter and counters.
use vstd::prelude::*;

pub mod ast;
pub mod compile;
pub mod echelon0;
pub mod entry;
pub mod grammar;
pub mod parser;
pub mod pipeline;
pub mod plugin;
pub mod rule;
pub mod visit;

verus! {

} // verus!
