//! A counter over many inputs at once, each given by the type that its path
//! resolves to and what was read from it.

use vstd::prelude::*;
use crate::stat::{dir_stat_of, stat_of, DirStat, EntryKind, FileStat};

verus! {

/// Counts contents and directory entries, input by input.
pub struct Counter;

impl Counter {
    pub fn new() -> (r: Counter)
        ensures
            r == Counter,
    {
        Counter
    }

    /// Counts a file's contents; `None` unless the path is a regular file
    /// (`kind` is `None` when its type could not be read).
    pub fn fcount(&self, kind: Option<EntryKind>, content: &[u8]) -> (r: Option<FileStat>)
        ensures
            r == if kind == Some(EntryKind::File) {
                Some(stat_of(content@))
            } else {
                None::<FileStat>
            },
    {
        match kind {
            Some(EntryKind::File) => Some(FileStat::count(content)),
            _ => None,
        }
    }

    /// Counts each input in turn, as `fcount` does.
    pub fn fcounts(&self, inputs: &[(Option<EntryKind>, Vec<u8>)]) -> (r: Vec<Option<FileStat>>)
        ensures
            r@.len() == inputs@.len(),
            forall|i: int|
                0 <= i < inputs@.len() ==> r@[i] == if inputs@[i].0 == Some(EntryKind::File) {
                    Some(stat_of(inputs@[i].1@))
                } else {
                    None::<FileStat>
                },
    {
        let mut stats: Vec<Option<FileStat>> = Vec::new();
        let mut i: usize = 0;
        while i < inputs.len()
            invariant
                i <= inputs@.len(),
                stats@.len() == i,
                forall|j: int|
                    0 <= j < i ==> stats@[j] == if inputs@[j].0 == Some(EntryKind::File) {
                        Some(stat_of(inputs@[j].1@))
                    } else {
                        None::<FileStat>
                    },
            decreases inputs@.len() - i,
        {
            let stat = self.fcount(inputs[i].0, inputs[i].1.as_slice());
            stats.push(stat);
            i = i + 1;
        }
        stats
    }

    /// Counts a directory's entries by type; `None` unless the path is a
    /// directory. An entry whose type could not be read is left out.
    pub fn dcount(&self, kind: Option<EntryKind>, children: &[Option<EntryKind>]) -> (r: Option<
        DirStat,
    >)
        ensures
            r == if kind == Some(EntryKind::Dir) {
                Some(dir_stat_of(children@))
            } else {
                None::<DirStat>
            },
    {
        match kind {
            Some(EntryKind::Dir) => Some(DirStat::from_kinds(children)),
            _ => None,
        }
    }

    /// Counts each input in turn, as `dcount` does.
    pub fn dcounts(&self, inputs: &[(Option<EntryKind>, Vec<Option<EntryKind>>)]) -> (r: Vec<
        Option<DirStat>,
    >)
        ensures
            r@.len() == inputs@.len(),
            forall|i: int|
                0 <= i < inputs@.len() ==> r@[i] == if inputs@[i].0 == Some(EntryKind::Dir) {
                    Some(dir_stat_of(inputs@[i].1@))
                } else {
                    None::<DirStat>
                },
    {
        let mut stats: Vec<Option<DirStat>> = Vec::new();
        let mut i: usize = 0;
        while i < inputs.len()
            invariant
                i <= inputs@.len(),
                stats@.len() == i,
                forall|j: int|
                    0 <= j < i ==> stats@[j] == if inputs@[j].0 == Some(EntryKind::Dir) {
                        Some(dir_stat_of(inputs@[j].1@))
                    } else {
                        None::<DirStat>
                    },
            decreases inputs@.len() - i,
        {
            let stat = self.dcount(inputs[i].0, inputs[i].1.as_slice());
            stats.push(stat);
            i = i + 1;
        }
        stats
    }
}

impl Default for Counter {
    fn default() -> (r: Counter)
        ensures
            r == Counter,
    {
        Counter::new()
    }
}

} // verus!
