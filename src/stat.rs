//! The per-entry statistics: counts of file contents and of directory entries.

use vstd::prelude::*;
use crate::text::{
    count_words, decode_lossy, lemma_split_lines_append, lossy_chars, split_lines, word_count,
    NEWLINE,
};

verus! {

/// `x` held to the range of `usize`: counts saturate at `usize::MAX`.
pub open spec fn clamp(x: int) -> usize {
    if x < 0 {
        0
    } else if x > usize::MAX {
        usize::MAX
    } else {
        x as usize
    }
}

/// Adds two counts, saturating at `usize::MAX`.
pub fn saturating_sum(a: usize, b: usize) -> (r: usize)
    ensures
        r == clamp(a + b),
{
    a.saturating_add(b)
}

/// Clamping an intermediate sum of non-negative terms changes nothing.
pub proof fn lemma_clamp_add(x: int, y: int)
    requires
        x >= 0,
        y >= 0,
    ensures
        clamp(clamp(x) + y) == clamp(x + y),
        clamp(x + clamp(y)) == clamp(x + y),
{
}

/// Line, word, character and byte counts of some content.
#[derive(Clone, Copy, Debug, PartialEq, Eq, Structural)]
pub struct FileStat {
    pub lines: usize,
    pub words: usize,
    pub chars: usize,
    pub bytes: usize,
}

/// The counts that one line contributes: the line itself, the words and the
/// characters of its decoded text, and its raw bytes.
pub open spec fn line_stat(line: Seq<u8>) -> FileStat {
    FileStat {
        lines: 1,
        words: clamp(word_count(lossy_chars(line)) as int),
        chars: clamp(lossy_chars(line).len() as int),
        bytes: clamp(line.len() as int),
    }
}

/// The counts of a sequence of lines, added up from the first.
pub open spec fn stat_of_lines(ls: Seq<Seq<u8>>) -> FileStat
    decreases ls.len(),
{
    if ls.len() == 0 {
        FileStat::zero()
    } else {
        stat_of_lines(ls.drop_last()).plus(line_stat(ls.last()))
    }
}

/// The counts of a whole input.
pub open spec fn stat_of(data: Seq<u8>) -> FileStat {
    stat_of_lines(split_lines(data))
}

/// The number of bytes in a sequence of lines.
pub open spec fn total_len(ls: Seq<Seq<u8>>) -> nat
    decreases ls.len(),
{
    if ls.len() == 0 {
        0
    } else {
        total_len(ls.drop_last()) + ls.last().len()
    }
}

proof fn lemma_split_lines_total_len(s: Seq<u8>)
    ensures
        total_len(split_lines(s)) == s.len(),
    decreases s.len(),
{
    if s.len() > 0 {
        lemma_split_lines_total_len(s.drop_last());
        let init = split_lines(s.drop_last());
        let b = s.last();
        if init.len() == 0 || init.last().last() == NEWLINE {
            assert(init.push(seq![b]).drop_last() =~= init);
        } else {
            let x = init.drop_last();
            assert(x.push(init.last().push(b)).drop_last() =~= x);
        }
    }
}

proof fn lemma_stat_of_lines_bytes(ls: Seq<Seq<u8>>)
    ensures
        stat_of_lines(ls).bytes == clamp(total_len(ls) as int),
    decreases ls.len(),
{
    if ls.len() > 0 {
        lemma_stat_of_lines_bytes(ls.drop_last());
        lemma_clamp_add(total_len(ls.drop_last()) as int, ls.last().len() as int);
    }
}

/// Counting an input reports exactly as many bytes as it holds.
pub proof fn lemma_count_bytes(data: Seq<u8>)
    requires
        data.len() <= usize::MAX,
    ensures
        stat_of(data).bytes == data.len(),
{
    lemma_split_lines_total_len(data);
    lemma_stat_of_lines_bytes(split_lines(data));
}

impl FileStat {
    pub open spec fn zero() -> FileStat {
        FileStat { lines: 0, words: 0, chars: 0, bytes: 0 }
    }

    /// Field-wise saturating sum.
    pub open spec fn plus(self, o: FileStat) -> FileStat {
        FileStat {
            lines: clamp(self.lines + o.lines),
            words: clamp(self.words + o.words),
            chars: clamp(self.chars + o.chars),
            bytes: clamp(self.bytes + o.bytes),
        }
    }

    /// All counts zero.
    pub fn new() -> (r: FileStat)
        ensures
            r == FileStat::zero(),
    {
        FileStat { lines: 0, words: 0, chars: 0, bytes: 0 }
    }

    /// Adds `o` field by field.
    pub fn add(&mut self, o: &FileStat)
        ensures
            *final(self) == old(self).plus(*o),
    {
        self.lines = saturating_sum(self.lines, o.lines);
        self.words = saturating_sum(self.words, o.words);
        self.chars = saturating_sum(self.chars, o.chars);
        self.bytes = saturating_sum(self.bytes, o.bytes);
    }

    /// Counts one line given its raw length in bytes and its decoded text.
    pub fn add_line_text(&mut self, byte_len: usize, text: &[char])
        ensures
            *final(self) == old(self).plus(
                FileStat {
                    lines: 1,
                    words: clamp(word_count(text@) as int),
                    chars: clamp(text@.len() as int),
                    bytes: byte_len,
                },
            ),
    {
        let words: usize = count_words(text);
        let one = FileStat { lines: 1, words, chars: text.len(), bytes: byte_len };
        self.add(&one);
    }

    /// Counts one line of raw bytes, its terminating newline included.
    pub fn add_line(&mut self, line: &[u8])
        ensures
            *final(self) == old(self).plus(line_stat(line@)),
    {
        let text = decode_lossy(line);
        self.add_line_text(line.len(), text.as_slice());
    }

    /// Counts the whole of `data`, line by line.
    pub fn count(data: &[u8]) -> (r: FileStat)
        ensures
            r == stat_of(data@),
            r.bytes == data@.len(),
    {
        let mut stat = FileStat::new();
        let mut start: usize = 0;
        assert(data@.take(0) =~= Seq::<u8>::empty());
        while start < data.len()
            invariant
                start <= data@.len(),
                start == 0 || start == data@.len() || data@[start - 1] == NEWLINE,
                stat == stat_of(data@.take(start as int)),
            decreases data@.len() - start,
        {
            let mut end: usize = start;
            while end < data.len() && data[end] != NEWLINE
                invariant
                    start <= end <= data@.len(),
                    forall|j: int| start <= j < end ==> data@[j] != NEWLINE,
                decreases data@.len() - end,
            {
                end = end + 1;
            }
            if end < data.len() {
                end = end + 1;
            }
            let line = vstd::slice::slice_subrange(data, start, end);
            stat.add_line(line);
            proof {
                lemma_split_lines_append(data@, start as int, end as int);
                let ls = split_lines(data@.take(end as int));
                assert(ls.drop_last() == split_lines(data@.take(start as int)));
            }
            start = end;
        }
        assert(data@.take(data@.len() as int) =~= data@);
        proof {
            lemma_count_bytes(data@);
        }
        stat
    }
}

impl FileStat {
    /// Adding counts is commutative and associative, saturation included.
    pub proof fn lemma_plus_laws(a: FileStat, b: FileStat, c: FileStat)
        ensures
            a.plus(b) == b.plus(a),
            a.plus(b).plus(c) == a.plus(b.plus(c)),
    {
    }
}

/// What a directory entry is, read without following a symbolic link.
#[derive(Clone, Copy, Debug, PartialEq, Eq, Structural)]
pub enum EntryKind {
    Dir,
    File,
    Symlink,
    BlockDevice,
    CharDevice,
    Fifo,
    Socket,
}

/// How many entries of `kinds` are of kind `k`; `None` stands for an entry
/// whose type could not be read.
pub open spec fn count_kind(kinds: Seq<Option<EntryKind>>, k: EntryKind) -> nat
    decreases kinds.len(),
{
    if kinds.len() == 0 {
        0
    } else {
        count_kind(kinds.drop_last(), k) + if kinds.last() == Some(k) {
            1nat
        } else {
            0nat
        }
    }
}

/// How many entries of `kinds` have a known type.
pub open spec fn count_resolved(kinds: Seq<Option<EntryKind>>) -> nat
    decreases kinds.len(),
{
    if kinds.len() == 0 {
        0
    } else {
        count_resolved(kinds.drop_last()) + if kinds.last() is Some {
            1nat
        } else {
            0nat
        }
    }
}

/// Counts of the immediate entries of a directory, by type.
#[derive(Clone, Copy, Debug, PartialEq, Eq, Structural)]
pub struct DirStat {
    pub subdirs: usize,
    pub files: usize,
    pub symlinks: usize,
    pub block_devices: usize,
    pub char_devices: usize,
    pub fifos: usize,
    pub sockets: usize,
}

/// The counts of a directory whose entries have the types `kinds`.
pub open spec fn dir_stat_of(kinds: Seq<Option<EntryKind>>) -> DirStat {
    DirStat {
        subdirs: clamp(count_kind(kinds, EntryKind::Dir) as int),
        files: clamp(count_kind(kinds, EntryKind::File) as int),
        symlinks: clamp(count_kind(kinds, EntryKind::Symlink) as int),
        block_devices: clamp(count_kind(kinds, EntryKind::BlockDevice) as int),
        char_devices: clamp(count_kind(kinds, EntryKind::CharDevice) as int),
        fifos: clamp(count_kind(kinds, EntryKind::Fifo) as int),
        sockets: clamp(count_kind(kinds, EntryKind::Socket) as int),
    }
}

/// Every entry of a known type falls in exactly one bucket.
pub proof fn lemma_buckets_cover_resolved(kinds: Seq<Option<EntryKind>>)
    ensures
        count_kind(kinds, EntryKind::Dir) + count_kind(kinds, EntryKind::File) + count_kind(
            kinds,
            EntryKind::Symlink,
        ) + count_kind(kinds, EntryKind::BlockDevice) + count_kind(kinds, EntryKind::CharDevice)
            + count_kind(kinds, EntryKind::Fifo) + count_kind(kinds, EntryKind::Socket)
            == count_resolved(kinds),
        count_resolved(kinds) <= kinds.len(),
    decreases kinds.len(),
{
    if kinds.len() > 0 {
        lemma_buckets_cover_resolved(kinds.drop_last());
        match kinds.last() {
            Some(k) => assert(k == EntryKind::Dir || k == EntryKind::File || k
                == EntryKind::Symlink || k == EntryKind::BlockDevice || k == EntryKind::CharDevice
                || k == EntryKind::Fifo || k == EntryKind::Socket),
            None => {},
        }
    }
}

proof fn lemma_count_kind_step(kinds: Seq<Option<EntryKind>>, i: int, k: EntryKind)
    requires
        0 <= i < kinds.len(),
    ensures
        count_kind(kinds.take(i + 1), k) == count_kind(kinds.take(i), k) + if kinds[i] == Some(
            k,
        ) {
            1nat
        } else {
            0nat
        },
{
    assert(kinds.take(i + 1).drop_last() =~= kinds.take(i));
}

impl DirStat {
    pub open spec fn zero() -> DirStat {
        DirStat {
            subdirs: 0,
            files: 0,
            symlinks: 0,
            block_devices: 0,
            char_devices: 0,
            fifos: 0,
            sockets: 0,
        }
    }

    /// The number of entries counted, over all buckets.
    pub open spec fn entries(self) -> int {
        self.subdirs + self.files + self.symlinks + self.block_devices + self.char_devices
            + self.fifos + self.sockets
    }

    /// Field-wise saturating sum.
    pub open spec fn plus(self, o: DirStat) -> DirStat {
        DirStat {
            subdirs: clamp(self.subdirs + o.subdirs),
            files: clamp(self.files + o.files),
            symlinks: clamp(self.symlinks + o.symlinks),
            block_devices: clamp(self.block_devices + o.block_devices),
            char_devices: clamp(self.char_devices + o.char_devices),
            fifos: clamp(self.fifos + o.fifos),
            sockets: clamp(self.sockets + o.sockets),
        }
    }

    /// Adding counts is commutative and associative, saturation included.
    pub proof fn lemma_plus_laws(a: DirStat, b: DirStat, c: DirStat)
        ensures
            a.plus(b) == b.plus(a),
            a.plus(b).plus(c) == a.plus(b.plus(c)),
    {
    }

    /// All counts zero.
    pub fn new() -> (r: DirStat)
        ensures
            r == DirStat::zero(),
    {
        DirStat {
            subdirs: 0,
            files: 0,
            symlinks: 0,
            block_devices: 0,
            char_devices: 0,
            fifos: 0,
            sockets: 0,
        }
    }

    /// Adds `o` field by field.
    pub fn add(&mut self, o: &DirStat)
        ensures
            *final(self) == old(self).plus(*o),
    {
        self.subdirs = saturating_sum(self.subdirs, o.subdirs);
        self.files = saturating_sum(self.files, o.files);
        self.symlinks = saturating_sum(self.symlinks, o.symlinks);
        self.block_devices = saturating_sum(self.block_devices, o.block_devices);
        self.char_devices = saturating_sum(self.char_devices, o.char_devices);
        self.fifos = saturating_sum(self.fifos, o.fifos);
        self.sockets = saturating_sum(self.sockets, o.sockets);
    }

    /// Buckets the entries of a directory by type, one bucket each; an entry
    /// whose type could not be read (`None`) is left out.
    pub fn from_kinds(kinds: &[Option<EntryKind>]) -> (r: DirStat)
        ensures
            r == dir_stat_of(kinds@),
            r.entries() == count_resolved(kinds@),
    {
        let mut stat = DirStat::new();
        let mut i: usize = 0;
        assert(kinds@.take(0) =~= Seq::<Option<EntryKind>>::empty());
        while i < kinds.len()
            invariant
                i <= kinds@.len(),
                stat == dir_stat_of(kinds@.take(i as int)),
                stat.subdirs <= i && stat.files <= i && stat.symlinks <= i,
                stat.block_devices <= i && stat.char_devices <= i,
                stat.fifos <= i && stat.sockets <= i,
            decreases kinds@.len() - i,
        {
            proof {
                lemma_count_kind_step(kinds@, i as int, EntryKind::Dir);
                lemma_count_kind_step(kinds@, i as int, EntryKind::File);
                lemma_count_kind_step(kinds@, i as int, EntryKind::Symlink);
                lemma_count_kind_step(kinds@, i as int, EntryKind::BlockDevice);
                lemma_count_kind_step(kinds@, i as int, EntryKind::CharDevice);
                lemma_count_kind_step(kinds@, i as int, EntryKind::Fifo);
                lemma_count_kind_step(kinds@, i as int, EntryKind::Socket);
            }
            match kinds[i] {
                Some(EntryKind::Dir) => stat.subdirs = stat.subdirs + 1,
                Some(EntryKind::File) => stat.files = stat.files + 1,
                Some(EntryKind::Symlink) => stat.symlinks = stat.symlinks + 1,
                Some(EntryKind::BlockDevice) => stat.block_devices = stat.block_devices + 1,
                Some(EntryKind::CharDevice) => stat.char_devices = stat.char_devices + 1,
                Some(EntryKind::Fifo) => stat.fifos = stat.fifos + 1,
                Some(EntryKind::Socket) => stat.sockets = stat.sockets + 1,
                None => {},
            }
            i = i + 1;
        }
        assert(kinds@.take(kinds@.len() as int) =~= kinds@);
        proof {
            lemma_buckets_cover_resolved(kinds@);
        }
        stat
    }
}

} // verus!
