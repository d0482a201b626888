//! Locating an R runtime and running R scripts with it.
//!
//! The library holds the decisions: which locations are searched and in what
//! order, which candidate wins, how the interpreter is started, and how a
//! finished run is reported. It never touches the filesystem or the process
//! table itself; callers look things up and hand the findings in as values.

pub mod diagnostics;
pub mod invocation;
pub mod locations;
pub mod outcome;
pub mod resolver;
pub mod text;
pub mod versions;
