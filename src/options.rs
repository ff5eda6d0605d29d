//! The options of a run, as the command line gives them.

use vstd::prelude::*;
use crate::run::Mode;

verus! {

/// The options of one invocation.
pub struct Args {
    /// The files or directories to count; `None` to count standard input.
    pub entries: Option<Vec<String>>,
    /// Count every matching entry below each input.
    pub recursive: bool,
    /// Count directory entries by type instead of file contents.
    pub count_dir: bool,
    /// Print only the final total.
    pub quiet: bool,
    /// Use colors in the output.
    pub colors: bool,
}

impl Args {
    /// What the run counts.
    pub fn mode(&self) -> (r: Mode)
        ensures
            r == if self.count_dir {
                Mode::Structure
            } else {
                Mode::Content
            },
    {
        if self.count_dir {
            Mode::Structure
        } else {
            Mode::Content
        }
    }

    /// Whether the run counts standard input, given no entries.
    pub fn reads_stdin(&self) -> (r: bool)
        ensures
            r == self.entries is None,
    {
        self.entries.is_none()
    }
}

/// An older set of options: entries, recursion, one-line output, counting of
/// directory entries and absolute paths.
pub struct Flag {
    pub entries: Vec<String>,
    pub rflag: bool,
    pub oflag: bool,
    pub fflag: bool,
    pub aflag: bool,
}

} // verus!
