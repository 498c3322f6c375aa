//! A command shell's parsing-and-execution engine, verified.
//!
//! Script text flows through the incremental [`feeder`] into the
//! recursive-descent parsers of [`elements`], producing a script, job,
//! pipeline and command tree in which every node records exactly the text
//! it consumed — concatenating the nodes reproduces the input.  Arithmetic
//! substitutions are tokenized and evaluated by an exactly-specified
//! stack machine; words expand parameters and arithmetic against the
//! variable table of [`shellcore`]; background pipelines are tracked in
//! the job table of [`job`], whose entries move from `Running` to the
//! terminal `Done`.  What must touch the operating system — waiting on a
//! child, a continue signal, a directory change — stands behind small
//! trusted wrappers; forking and file-descriptor wiring live outside the
//! library, driven by the decisions it proves.

pub mod builtins;
pub mod elements;
pub mod feeder;
pub mod job;
pub mod numstr;
pub mod parser;
pub mod shellcore;
pub mod terminal;
pub mod textutil;
