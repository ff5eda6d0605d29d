use lwc::options::Args;
use lwc::run::{check_target, select_targets, Failure, Mode, Run, Step};
use lwc::stat::{DirStat, EntryKind, FileStat};
use lwc::total::{Stat, Total};

fn file(lines: usize, words: usize, chars: usize, bytes: usize) -> Stat {
    Stat::File(FileStat { lines, words, chars, bytes })
}

fn fold(order: &[Stat]) -> Total {
    let mut t = Total::file();
    for s in order {
        t.add_assign(s);
    }
    t
}

#[test]
fn folding_order_does_not_matter() {
    let a = file(1, 2, 3, 4);
    let b = file(10, 20, 30, 40);
    let c = file(100, 200, 300, 400);
    let abc = fold(&[a, b, c]);
    assert_eq!(abc, fold(&[c, a, b]));
    assert_eq!(abc, fold(&[b, c, a]));
    assert_eq!(abc.sum, file(111, 222, 333, 444));
    assert_eq!(abc.done, 3);
}

#[test]
fn merging_partial_totals_matches_one_fold() {
    let a = file(1, 2, 3, 4);
    let b = file(5, 6, 7, 8);
    let c = file(9, 10, 11, 12);
    let mut left = fold(&[a]);
    let right = fold(&[b, c]);
    left.merge(&right);
    assert_eq!(left, fold(&[a, b, c]));
}

#[test]
fn total_ignores_other_shape() {
    let mut t = Total::file();
    t.update_dir(&DirStat { subdirs: 3, ..DirStat::new() });
    assert_eq!(t, Total::file());
    let mut d = Total::dir();
    d.update_file(&FileStat { lines: 1, words: 1, chars: 1, bytes: 1 });
    assert_eq!(d, Total::dir());
    d.update_dir(&DirStat { subdirs: 3, ..DirStat::new() });
    assert_eq!(d.done, 1);
    assert_eq!(d.sum, Stat::Dir(DirStat { subdirs: 3, ..DirStat::new() }));
}

#[test]
fn directory_in_content_mode_is_not_fatal() {
    let r = check_target(Mode::Content, "some/dir", EntryKind::Dir);
    match &r {
        Err(Failure::WrongType { path, expected }) => {
            assert_eq!(path, "some/dir");
            assert_eq!(*expected, EntryKind::File);
        }
        _ => panic!("expected a wrong-type failure"),
    }
    let mut run = Run::new(Mode::Content, false);
    let step = run.record(Err(r.unwrap_err()));
    assert!(matches!(step, Step::Warn(_)));
    let step = run.record(Ok(file(1, 1, 2, 2)));
    assert!(matches!(step, Step::Report(_)));
    assert_eq!(run.total.done, 1);
}

#[test]
fn matching_types_pass_the_check() {
    assert!(check_target(Mode::Content, "f", EntryKind::File).is_ok());
    assert!(check_target(Mode::Structure, "d", EntryKind::Dir).is_ok());
    assert!(check_target(Mode::Structure, "f", EntryKind::File).is_err());
    assert!(check_target(Mode::Content, "l", EntryKind::Symlink).is_err());
}

#[test]
fn io_failure_aborts() {
    let mut run = Run::new(Mode::Content, false);
    let f = Failure::Io { path: "gone".to_string(), message: "not found".to_string() };
    assert!(f.is_fatal());
    assert!(matches!(run.record(Err(f)), Step::Abort(_)));
    assert_eq!(run.total, Total::file());
}

#[test]
fn recursive_walk_selects_every_file() {
    let walked = vec![
        ("root".to_string(), Some(EntryKind::Dir)),
        ("root/a.txt".to_string(), Some(EntryKind::File)),
        ("root/sub".to_string(), Some(EntryKind::Dir)),
        ("root/sub/b.txt".to_string(), Some(EntryKind::File)),
        ("root/sub/deeper".to_string(), Some(EntryKind::Dir)),
        ("root/sub/deeper/c.txt".to_string(), Some(EntryKind::File)),
        ("root/sub/pipe".to_string(), Some(EntryKind::Fifo)),
        ("root/broken".to_string(), None),
    ];
    let files = select_targets(Mode::Content, &walked);
    assert_eq!(files, vec!["root/a.txt", "root/sub/b.txt", "root/sub/deeper/c.txt"]);
    let dirs = select_targets(Mode::Structure, &walked);
    assert_eq!(dirs, vec!["root", "root/sub", "root/sub/deeper"]);

    let mut run = Run::new(Mode::Content, false);
    let mut reports = 0;
    for _ in &files {
        if let Step::Report(_) = run.record(Ok(file(1, 1, 1, 1))) {
            reports += 1;
        }
    }
    assert_eq!(reports, 3);

    // The root given flat, without recursion, is a directory: nothing is counted.
    let mut flat = Run::new(Mode::Content, false);
    let outcome = check_target(Mode::Content, "root", EntryKind::Dir).map(|_| file(0, 0, 0, 0));
    assert!(matches!(flat.record(outcome), Step::Warn(_)));
    assert_eq!(flat.total.done, 0);
}

#[test]
fn total_line_needs_two_entries() {
    let mut run = Run::new(Mode::Content, false);
    assert_eq!(run.total_line(), None);
    run.record(Ok(file(1, 2, 3, 4)));
    assert_eq!(run.total_line(), None);
    run.record(Ok(file(1, 2, 3, 4)));
    assert_eq!(run.total_line(), Some(file(2, 4, 6, 8)));
}

#[test]
fn quiet_run_reports_nothing_but_counts() {
    let mut run = Run::new(Mode::Structure, true);
    let d = Stat::Dir(DirStat { files: 2, ..DirStat::new() });
    assert!(matches!(run.record(Ok(d)), Step::Counted));
    assert!(matches!(run.record(Ok(d)), Step::Counted));
    assert_eq!(run.total_line(), Some(Stat::Dir(DirStat { files: 4, ..DirStat::new() })));
}

#[test]
fn options_pick_mode_and_input() {
    let mut args = Args {
        entries: None,
        recursive: false,
        count_dir: false,
        quiet: false,
        colors: true,
    };
    assert!(args.reads_stdin());
    assert_eq!(args.mode(), Mode::Content);
    args.count_dir = true;
    args.entries = Some(vec!["x".to_string()]);
    assert!(!args.reads_stdin());
    assert_eq!(args.mode(), Mode::Structure);
}
