//! Command-line options.
//!
//! Argument parsing and process bootstrap live outside this crate; the
//! core receives the finished option values.

use vstd::prelude::*;

verus! {

/// Command line options.
#[derive(Clone, Debug)]
pub struct CliOpt {
    pub version: bool,
    pub file: Vec<String>,
}

impl CliOpt {
    /// Input files.
    pub fn file(&self) -> (r: &Vec<String>)
        ensures
            r == self.file,
    {
        &self.file
    }

    /// Version.
    pub fn version(&self) -> (r: bool)
        ensures
            r == self.version,
    {
        self.version
    }

    /// Options from their parts.
    pub fn new(version: bool, file: Vec<String>) -> (r: CliOpt)
        ensures
            r.version == version,
            r.file == file,
    {
        CliOpt { version, file }
    }
}

} // verus!
