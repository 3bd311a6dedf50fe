//! The command-line inputs: URL lists, URL files, subreddits and
//! multireddits.  Argument parsing itself is I/O and lives with the caller;
//! this is the parsed shape the rest of the library consumes.

use vstd::prelude::*;

verus! {

/// The values the command line supplies, each list possibly empty.
pub struct CommandLineArgs {
    pub urls: Vec<String>,
    pub src_files: Vec<String>,
    pub subs: Vec<String>,
    pub multis: Vec<String>,
}

} // verus!
