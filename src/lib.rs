//! A small stream editor: a compiler from a subset of the sed command
//! language to a list of addressed instructions, and an engine that runs
//! such a list over a buffer of lines.
//!
//! Both halves are pure: the engine reports the file appends that `w` and
//! the `w` flag of `s` ask for, in order, and the caller performs them.
pub mod builders;
pub mod compile;
pub mod engine;
pub mod helpers;
pub mod laws;
pub mod options;
pub mod pattern;
pub mod substitution;

pub use builders::{InsertType, build_insert, build_options, build_subs, build_write};
pub use compile::build_ast;
pub use engine::{Run, execute, is_valid};
pub use substitution::{Substitution, finish_substitution, substitute};
pub use helpers::{Build, FileAppend, Matcher, Operation, Options, SedError, get_regex_position};
pub use options::{Opt, buffer_lines, split_lines};
pub use pattern::Pattern;
