use lwc::counter::Counter;
use lwc::stat::{DirStat, EntryKind, FileStat};
use lwc::text::{count_words, is_whitespace};

fn stat(lines: usize, words: usize, chars: usize, bytes: usize) -> FileStat {
    FileStat { lines, words, chars, bytes }
}

#[test]
fn empty_input_is_all_zero() {
    assert_eq!(FileStat::count(b""), stat(0, 0, 0, 0));
    assert_eq!(FileStat::count(b""), FileStat::new());
}

#[test]
fn single_line_without_newline() {
    assert_eq!(FileStat::count(b"hello world"), stat(1, 2, 11, 11));
}

#[test]
fn two_terminated_lines() {
    assert_eq!(FileStat::count(b"a\nb\n"), stat(2, 2, 4, 4));
}

#[test]
fn bytes_match_input_length() {
    let inputs: Vec<&[u8]> = vec![
        b"",
        b"\n",
        b"\n\n\n",
        b"no newline at end",
        b"one\ntwo  three\n\tfour",
        b"\xff\xfe\xfd\n\x80",
        "h\u{e9}llo w\u{f6}rld\n".as_bytes(),
    ];
    for data in inputs {
        assert_eq!(FileStat::count(data).bytes, data.len());
    }
}

#[test]
fn blank_lines_count_as_lines() {
    assert_eq!(FileStat::count(b"\n\n\n"), stat(3, 0, 3, 3));
    assert_eq!(FileStat::count(b"x\n\ny"), stat(3, 2, 4, 4));
}

#[test]
fn multibyte_characters_count_once() {
    let data = "h\u{e9}llo \u{4e16}\u{754c}\n".as_bytes();
    assert_eq!(data.len(), 14);
    assert_eq!(FileStat::count(data), stat(1, 2, 9, 14));
}

#[test]
fn invalid_bytes_become_replacement_characters() {
    assert_eq!(FileStat::count(b"a\xffb\n"), stat(1, 1, 4, 4));
    assert_eq!(FileStat::count(b"\xff\xfe"), stat(1, 1, 2, 2));
}

#[test]
fn unicode_whitespace_splits_words() {
    let data = "one\u{3000}two\u{a0}three\u{2028}four".as_bytes();
    assert_eq!(FileStat::count(data).words, 4);
    assert_eq!(FileStat::count(data).lines, 1);
}

#[test]
fn add_line_accumulates() {
    let mut s = FileStat::new();
    s.add_line(b"hello world\n");
    s.add_line(b"  x");
    assert_eq!(s, stat(2, 3, 15, 15));
}

#[test]
fn add_line_text_uses_given_text() {
    let mut s = FileStat::new();
    let text: Vec<char> = " ab  cd ".chars().collect();
    s.add_line_text(10, &text);
    assert_eq!(s, stat(1, 2, 8, 10));
}

#[test]
fn add_saturates() {
    let mut s = stat(usize::MAX - 1, 0, 5, 0);
    s.add(&stat(5, 1, 1, 0));
    assert_eq!(s, stat(usize::MAX, 1, 6, 0));
}

#[test]
fn whitespace_matches_std() {
    for u in 0u32..=0x10ffff {
        if let Some(c) = char::from_u32(u) {
            assert_eq!(is_whitespace(c), c.is_whitespace(), "at {u:#x}");
        }
    }
}

#[test]
fn words_are_maximal_runs() {
    let cs: Vec<char> = "  a bb\t\tccc \n".chars().collect();
    assert_eq!(count_words(&cs), 3);
    assert_eq!(count_words(&[]), 0);
    let one: Vec<char> = "word".chars().collect();
    assert_eq!(count_words(&one), 1);
}

#[test]
fn classifier_buckets_entries() {
    let kinds = vec![
        Some(EntryKind::Dir),
        Some(EntryKind::File),
        Some(EntryKind::File),
        Some(EntryKind::Symlink),
    ];
    let d = DirStat::from_kinds(&kinds);
    assert_eq!(d.subdirs, 1);
    assert_eq!(d.files, 2);
    assert_eq!(d.symlinks, 1);
    assert_eq!(d.block_devices, 0);
    assert_eq!(d.char_devices, 0);
    assert_eq!(d.fifos, 0);
    assert_eq!(d.sockets, 0);
}

#[test]
fn classifier_skips_unresolved_entries() {
    let kinds = vec![
        Some(EntryKind::Fifo),
        None,
        Some(EntryKind::Socket),
        Some(EntryKind::BlockDevice),
        None,
        Some(EntryKind::CharDevice),
        Some(EntryKind::CharDevice),
    ];
    let d = DirStat::from_kinds(&kinds);
    let sum = d.subdirs
        + d.files
        + d.symlinks
        + d.block_devices
        + d.char_devices
        + d.fifos
        + d.sockets;
    assert_eq!(sum, 5);
    assert_eq!(d.char_devices, 2);
    assert_eq!(d.fifos, 1);
    assert_eq!(d.sockets, 1);
    assert_eq!(d.block_devices, 1);
    assert_eq!(DirStat::from_kinds(&[]), DirStat::new());
}

#[test]
fn counter_counts_only_matching_types() {
    let c = Counter::new();
    assert_eq!(c.fcount(Some(EntryKind::File), b"a b\n"), Some(stat(1, 2, 4, 4)));
    assert_eq!(c.fcount(Some(EntryKind::Dir), b"a b\n"), None);
    assert_eq!(c.fcount(None, b""), None);
    let kinds = vec![Some(EntryKind::File), Some(EntryKind::Dir)];
    let d = c.dcount(Some(EntryKind::Dir), &kinds).unwrap();
    assert_eq!((d.files, d.subdirs), (1, 1));
    assert_eq!(c.dcount(Some(EntryKind::File), &kinds), None);
}

#[test]
fn counter_counts_many_inputs() {
    let c = Counter::default();
    let inputs = vec![
        (Some(EntryKind::File), b"x\ny\n".to_vec()),
        (Some(EntryKind::Symlink), b"x".to_vec()),
    ];
    assert_eq!(c.fcounts(&inputs), vec![Some(stat(2, 2, 4, 4)), None]);
    let dirs = vec![
        (Some(EntryKind::Dir), vec![Some(EntryKind::Fifo)]),
        (None, vec![]),
    ];
    let r = c.dcounts(&dirs);
    assert_eq!(r.len(), 2);
    assert_eq!(r[0].unwrap().fifos, 1);
    assert_eq!(r[1], None);
}
