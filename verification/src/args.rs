//! The run's configuration, as the command line hands it over: the match
//! and output flags, the paths passed through to the package database, and
//! the positional targets and patterns.

use vstd::prelude::*;

verus! {

/// Everything one invocation was asked to do. `regex` switches the matcher
/// to regular expressions, `quiet` reports names instead of content,
/// `binary` allows streaming content flagged binary. `root`, `dbpath`,
/// `config` and `cachedir` are passed through to the package-database
/// collaborator. `targets` names what to search (may be empty, selecting a
/// whole-database scan over the installed database if `localdb`, else over
/// the repositories); `files` holds the patterns to search for.
pub struct Args {
    pub regex: bool,
    pub quiet: bool,
    pub binary: bool,
    pub root: Option<String>,
    pub dbpath: Option<String>,
    pub config: Option<String>,
    pub cachedir: Option<String>,
    pub localdb: bool,
    pub targets: Vec<String>,
    pub files: Vec<String>,
}

} // verus!
