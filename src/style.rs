//! What the reports show: which counts appear, under which label, and in
//! which colors.

use vstd::prelude::*;
use crate::stat::{DirStat, FileStat};
use crate::total::Stat;

verus! {

/// What a count counts, as a report names it.
#[derive(Clone, Copy, Debug, PartialEq, Eq, Structural)]
pub enum Unit {
    Line,
    Word,
    Char,
    Byte,
    Subdir,
    File,
    Symlink,
    BlockDevice,
    CharDevice,
    Fifo,
    Socket,
}

impl Unit {
    /// The singular name of the unit.
    pub open spec fn word(self) -> Seq<char> {
        match self {
            Unit::Line => seq!['l', 'i', 'n', 'e'],
            Unit::Word => seq!['w', 'o', 'r', 'd'],
            Unit::Char => seq!['c', 'h', 'a', 'r'],
            Unit::Byte => seq!['b', 'y', 't', 'e'],
            Unit::Subdir => seq!['s', 'u', 'b', 'd', 'i', 'r'],
            Unit::File => seq!['f', 'i', 'l', 'e'],
            Unit::Symlink => seq!['s', 'y', 'm', 'l', 'i', 'n', 'k'],
            Unit::BlockDevice => seq!['b', 'l', 'o', 'c', 'k'],
            Unit::CharDevice => seq!['c', 'h', 'a', 'r'],
            Unit::Fifo => seq!['f', 'i', 'f', 'o'],
            Unit::Socket => seq!['s', 'o', 'c', 'k', 'e', 't'],
        }
    }

    /// The label of `n` of the unit: plural past one.
    pub open spec fn label_of(self, n: usize) -> Seq<char> {
        if n > 1 {
            self.word().push('s')
        } else {
            self.word()
        }
    }

    /// The label of `n` of the unit, such as "line" or "lines".
    pub fn label(&self, n: usize) -> (r: &'static str)
        ensures
            r@ == self.label_of(n),
    {
        let plural = n > 1;
        proof {
            reveal_strlit("line");
            reveal_strlit("lines");
            reveal_strlit("word");
            reveal_strlit("words");
            reveal_strlit("char");
            reveal_strlit("chars");
            reveal_strlit("byte");
            reveal_strlit("bytes");
            reveal_strlit("subdir");
            reveal_strlit("subdirs");
            reveal_strlit("file");
            reveal_strlit("files");
            reveal_strlit("symlink");
            reveal_strlit("symlinks");
            reveal_strlit("block");
            reveal_strlit("blocks");
            reveal_strlit("fifo");
            reveal_strlit("fifos");
            reveal_strlit("socket");
            reveal_strlit("sockets");
        }
        let r = match self {
            Unit::Line => if plural { "lines" } else { "line" },
            Unit::Word => if plural { "words" } else { "word" },
            Unit::Char => if plural { "chars" } else { "char" },
            Unit::Byte => if plural { "bytes" } else { "byte" },
            Unit::Subdir => if plural { "subdirs" } else { "subdir" },
            Unit::File => if plural { "files" } else { "file" },
            Unit::Symlink => if plural { "symlinks" } else { "symlink" },
            Unit::BlockDevice => if plural { "blocks" } else { "block" },
            Unit::CharDevice => if plural { "chars" } else { "char" },
            Unit::Fifo => if plural { "fifos" } else { "fifo" },
            Unit::Socket => if plural { "sockets" } else { "socket" },
        };
        assert(r@ =~= self.label_of(n));
        r
    }
}

impl FileStat {
    /// The counts in the order a report shows them, each with its unit.
    pub fn parts(&self) -> (r: Vec<(usize, Unit)>)
        ensures
            r@ == seq![
                (self.lines, Unit::Line),
                (self.words, Unit::Word),
                (self.chars, Unit::Char),
                (self.bytes, Unit::Byte),
            ],
    {
        let r = vec![
            (self.lines, Unit::Line),
            (self.words, Unit::Word),
            (self.chars, Unit::Char),
            (self.bytes, Unit::Byte),
        ];
        assert(r@ =~= seq![
            (self.lines, Unit::Line),
            (self.words, Unit::Word),
            (self.chars, Unit::Char),
            (self.bytes, Unit::Byte),
        ]);
        r
    }
}

impl DirStat {
    /// The counts in the order a report shows them, each with its unit.
    pub fn parts(&self) -> (r: Vec<(usize, Unit)>)
        ensures
            r@ == seq![
                (self.subdirs, Unit::Subdir),
                (self.files, Unit::File),
                (self.symlinks, Unit::Symlink),
                (self.block_devices, Unit::BlockDevice),
                (self.char_devices, Unit::CharDevice),
                (self.fifos, Unit::Fifo),
                (self.sockets, Unit::Socket),
            ],
    {
        let r = vec![
            (self.subdirs, Unit::Subdir),
            (self.files, Unit::File),
            (self.symlinks, Unit::Symlink),
            (self.block_devices, Unit::BlockDevice),
            (self.char_devices, Unit::CharDevice),
            (self.fifos, Unit::Fifo),
            (self.sockets, Unit::Socket),
        ];
        assert(r@ =~= seq![
            (self.subdirs, Unit::Subdir),
            (self.files, Unit::File),
            (self.symlinks, Unit::Symlink),
            (self.block_devices, Unit::BlockDevice),
            (self.char_devices, Unit::CharDevice),
            (self.fifos, Unit::Fifo),
            (self.sockets, Unit::Socket),
        ]);
        r
    }
}

impl Stat {
    /// The counts in the order a report shows them, each with its unit.
    pub fn parts(&self) -> (r: Vec<(usize, Unit)>)
        ensures
            r@ == match self {
                Stat::File(s) => seq![
                    (s.lines, Unit::Line),
                    (s.words, Unit::Word),
                    (s.chars, Unit::Char),
                    (s.bytes, Unit::Byte),
                ],
                Stat::Dir(s) => seq![
                    (s.subdirs, Unit::Subdir),
                    (s.files, Unit::File),
                    (s.symlinks, Unit::Symlink),
                    (s.block_devices, Unit::BlockDevice),
                    (s.char_devices, Unit::CharDevice),
                    (s.fifos, Unit::Fifo),
                    (s.sockets, Unit::Socket),
                ],
            },
    {
        match self {
            Stat::File(s) => s.parts(),
            Stat::Dir(s) => s.parts(),
        }
    }
}

/// The parts that a report shows: those with a count of one or more, in
/// order, each with the label that fits its count.
pub open spec fn shown(parts: Seq<(usize, Unit)>) -> Seq<(usize, Seq<char>)>
    decreases parts.len(),
{
    if parts.len() == 0 {
        seq![]
    } else {
        let init = shown(parts.drop_last());
        let (n, u) = parts.last();
        if n >= 1 {
            init.push((n, u.label_of(n)))
        } else {
            init
        }
    }
}

/// Picks the parts that a report shows and labels each: counts of zero are
/// left out, and a label is plural for a count past one.
pub fn format_stats(parts: &[(usize, Unit)]) -> (r: Vec<(usize, &'static str)>)
    ensures
        r@.map_values(|p: (usize, &'static str)| (p.0, p.1@)) == shown(parts@),
{
    let mut out: Vec<(usize, &'static str)> = Vec::new();
    let mut i: usize = 0;
    assert(parts@.take(0) =~= Seq::<(usize, Unit)>::empty());
    while i < parts.len()
        invariant
            i <= parts@.len(),
            out@.map_values(|p: (usize, &'static str)| (p.0, p.1@)) == shown(
                parts@.take(i as int),
            ),
        decreases parts@.len() - i,
    {
        assert(parts@.take(i + 1).drop_last() =~= parts@.take(i as int));
        let (n, u) = parts[i];
        if n >= 1 {
            let label = u.label(n);
            let ghost before = out@;
            out.push((n, label));
            assert(out@.map_values(|p: (usize, &'static str)| (p.0, p.1@)) =~= before.map_values(
                |p: (usize, &'static str)| (p.0, p.1@),
            ).push((n, label@)));
        }
        i = i + 1;
    }
    assert(parts@.take(parts@.len() as int) =~= parts@);
    out
}

/// A color given by its red, green and blue components.
#[derive(Clone, Copy, Debug, PartialEq, Eq, Structural)]
pub struct Rgb {
    pub r: u8,
    pub g: u8,
    pub b: u8,
}

/// The colors of a report, chosen by whether the terminal shows true color.
pub struct Color;

impl Color {
    /// The color of a path.
    pub fn path(truecolor: bool) -> (r: Rgb)
        ensures
            r == if truecolor {
                Rgb { r: 77, g: 210, b: 255 }
            } else {
                Rgb { r: 0, g: 170, b: 170 }
            },
    {
        if truecolor {
            Rgb { r: 77, g: 210, b: 255 }
        } else {
            Rgb { r: 0, g: 170, b: 170 }
        }
    }

    /// The color of the arrow between statistics and path.
    pub fn delim(truecolor: bool) -> (r: Rgb)
        ensures
            r == if truecolor {
                Rgb { r: 152, g: 251, b: 152 }
            } else {
                Rgb { r: 0, g: 0, b: 170 }
            },
    {
        if truecolor {
            Rgb { r: 152, g: 251, b: 152 }
        } else {
            Rgb { r: 0, g: 0, b: 170 }
        }
    }

    /// The color of a number.
    pub fn num(truecolor: bool) -> (r: Rgb)
        ensures
            r == if truecolor {
                Rgb { r: 255, g: 218, b: 185 }
            } else {
                Rgb { r: 170, g: 170, b: 0 }
            },
    {
        if truecolor {
            Rgb { r: 255, g: 218, b: 185 }
        } else {
            Rgb { r: 170, g: 170, b: 0 }
        }
    }

    /// Whether a terminal that sets `COLORTERM` to `colorterm` shows true
    /// color: only for "truecolor" and "24bit".
    pub fn supports_truecolor(colorterm: Option<&str>) -> (r: bool)
        ensures
            r == match colorterm {
                Some(v) => v@ == "truecolor"@ || v@ == "24bit"@,
                None => false,
            },
    {
        match colorterm {
            Some(v) => same_text(v, "truecolor") || same_text(v, "24bit"),
            None => false,
        }
    }
}

/// Whether two strings hold the same characters.
pub fn same_text(a: &str, b: &str) -> (r: bool)
    ensures
        r == (a@ == b@),
{
    let n: usize = a.unicode_len();
    if n != b.unicode_len() {
        return false;
    }
    let mut i: usize = 0;
    while i < n
        invariant
            n == a@.len(),
            n == b@.len(),
            i <= n,
            forall|j: int| 0 <= j < i ==> a@[j] == b@[j],
        decreases n - i,
    {
        if a.get_char(i) != b.get_char(i) {
            return false;
        }
        i = i + 1;
    }
    assert(a@ =~= b@);
    true
}

} // verus!
