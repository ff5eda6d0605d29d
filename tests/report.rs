use lwc::stat::{DirStat, FileStat};
use lwc::style::{format_stats, same_text, Color, Rgb, Unit};
use lwc::total::Stat;

#[test]
fn zero_counts_are_hidden_and_labels_pluralised() {
    let s = FileStat { lines: 1, words: 0, chars: 2, bytes: 2 };
    assert_eq!(format_stats(&s.parts()), vec![(1, "line"), (2, "chars"), (2, "bytes")]);
    let d = DirStat { subdirs: 3, symlinks: 1, char_devices: 2, ..DirStat::new() };
    assert_eq!(
        format_stats(&Stat::Dir(d).parts()),
        vec![(3, "subdirs"), (1, "symlink"), (2, "chars")]
    );
    assert_eq!(format_stats(&FileStat::new().parts()), vec![]);
}

#[test]
fn unit_labels() {
    assert_eq!(Unit::Socket.label(1), "socket");
    assert_eq!(Unit::Socket.label(2), "sockets");
    assert_eq!(Unit::BlockDevice.label(0), "block");
    assert_eq!(Unit::Fifo.label(7), "fifos");
}

#[test]
fn palette_by_terminal() {
    assert_eq!(Color::path(true), Rgb { r: 77, g: 210, b: 255 });
    assert_eq!(Color::path(false), Rgb { r: 0, g: 170, b: 170 });
    assert_eq!(Color::delim(true), Rgb { r: 152, g: 251, b: 152 });
    assert_eq!(Color::delim(false), Rgb { r: 0, g: 0, b: 170 });
    assert_eq!(Color::num(true), Rgb { r: 255, g: 218, b: 185 });
    assert_eq!(Color::num(false), Rgb { r: 170, g: 170, b: 0 });
}

#[test]
fn truecolor_detection() {
    assert!(Color::supports_truecolor(Some("truecolor")));
    assert!(Color::supports_truecolor(Some("24bit")));
    assert!(!Color::supports_truecolor(Some("256color")));
    assert!(!Color::supports_truecolor(Some("")));
    assert!(!Color::supports_truecolor(None));
    assert!(same_text("\u{e9}t\u{e9}", "\u{e9}t\u{e9}"));
    assert!(!same_text("ab", "abc"));
}
