use unixr::catr::{format_line, Config};
use unixr::findr::EntryType;

fn config(number_lines: bool, number_nonblank_lines: bool) -> Config {
    Config { files: vec!["-".to_string()], number_lines, number_nonblank_lines }
}

#[test]
fn plain_lines_are_unchanged() {
    let mut last = 0;
    assert_eq!(format_line(&config(false, false), 0, &mut last, "abc"), "abc");
    assert_eq!(last, 0);
}

#[test]
fn numbering_every_line() {
    let mut last = 0;
    assert_eq!(format_line(&config(true, false), 0, &mut last, "abc"), "     1\tabc");
    assert_eq!(format_line(&config(true, false), 1, &mut last, ""), "     2\t");
    assert_eq!(last, 0);
}

#[test]
fn numbering_nonblank_lines_skips_blank_ones() {
    let c = config(false, true);
    let mut last = 0;
    assert_eq!(format_line(&c, 0, &mut last, "a"), "     1\ta");
    assert_eq!(format_line(&c, 1, &mut last, ""), "");
    assert_eq!(format_line(&c, 2, &mut last, "b"), "     2\tb");
    assert_eq!(last, 2);
}

#[test]
fn entry_type_flags() {
    assert_eq!(EntryType::from_flag("d"), Some(EntryType::Dir));
    assert_eq!(EntryType::from_flag("f"), Some(EntryType::File));
    assert_eq!(EntryType::from_flag("l"), Some(EntryType::Link));
    assert_eq!(EntryType::from_flag("x"), None);
    assert_eq!(EntryType::from_flag("dd"), None);
    assert_eq!(EntryType::from_flag(""), None);
}

#[test]
fn diagnostic_names_the_missing_file() {
    let m = unixr::layout::diagnostic("missing.txt", "No such file or directory (os error 2)");
    assert_eq!(m, "missing.txt: No such file or directory (os error 2)");
}
