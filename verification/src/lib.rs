//! Verified core of an interactive file-linking tree walk.
//!
//! The library models the decisions the walk makes: resolving the raw
//! command-line flags into a per-action policy, answering each gate
//! (create a link, create a directory, recurse) from that policy and a
//! three-way confirmation, choosing link and directory names, and the
//! depth-first walk itself, which turns a source tree and a script of
//! prompt replies into the sequence of attempted link and directory
//! creations together with a single abort-or-continue outcome.
//!
//! Console prompting, argument parsing and the filesystem syscalls stay
//! outside the library; they hand plain values in and take plain values
//! back out.

pub mod fspath;
pub mod laws;
pub mod policy;
pub mod prompt;
pub mod walk;
