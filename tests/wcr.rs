use unixr::wcr::{count, process_input, render, Config, Emit, FileInfo};

#[test]
fn test_count() {
    let text = "I don't want the world. I just want your half.\r\n";
    let info = count(text);
    let expected = FileInfo {
        num_lines: 1,
        num_words: 10,
        num_chars: 48,
        num_bytes: 48,
    };
    assert_eq!(info, expected)
}

#[test]
fn count_empty_text() {
    let info = count("");
    assert_eq!(
        info,
        FileInfo { num_lines: 0, num_words: 0, num_bytes: 0, num_chars: 0 }
    );
}

#[test]
fn count_last_line_without_newline_and_multibyte() {
    let info = count("a b\n\u{e9}t\u{e9}  x");
    assert_eq!(
        info,
        FileInfo { num_lines: 2, num_words: 4, num_bytes: 12, num_chars: 10 }
    );
}

#[test]
fn count_unicode_spaces_separate_words() {
    let info = count("one\u{3000}two\u{a0}three\n\n");
    assert_eq!(info.num_words, 3);
    assert_eq!(info.num_lines, 2);
}

#[test]
fn config_defaults_to_lines_words_bytes() {
    let c = Config::new(vec!["-".to_string()], false, false, false, false);
    assert!(c.lines && c.words && c.bytes && !c.chars);
    let c = Config::new(vec![], false, true, false, false);
    assert!(!c.lines && c.words && !c.bytes && !c.chars);
}

#[test]
fn render_columns_and_name() {
    let info = FileInfo { num_lines: 1, num_words: 10, num_bytes: 48, num_chars: 47 };
    let c = Config::new(vec![], false, false, false, false);
    assert_eq!(render(&info, &c, "f.txt"), "       1      10      48 f.txt");
    assert_eq!(render(&info, &c, "-"), "       1      10      48");
    let c = Config::new(vec![], false, false, true, true);
    assert_eq!(render(&info, &c, "x"), "      47 x");
}

#[test]
fn add_totals_and_overflow() {
    let a = FileInfo { num_lines: 1, num_words: 2, num_bytes: 3, num_chars: 4 };
    let b = FileInfo { num_lines: 10, num_words: 20, num_bytes: 30, num_chars: 40 };
    assert_eq!(
        a.add(&b),
        Some(FileInfo { num_lines: 11, num_words: 22, num_bytes: 33, num_chars: 44 })
    );
    let big = FileInfo { num_lines: usize::MAX, num_words: 0, num_bytes: 0, num_chars: 0 };
    assert_eq!(big.add(&a), None);
}

#[test]
fn total_line_only_for_several_inputs() {
    let info = FileInfo { num_lines: 3, num_words: 5, num_bytes: 20, num_chars: 20 };
    let one = Config::new(vec!["a".to_string()], true, false, false, false);
    assert_eq!(unixr::wcr::render_total(&info, &one), None);
    let two = Config::new(vec!["a".to_string(), "b".to_string()], true, false, false, false);
    assert_eq!(
        unixr::wcr::render_total(&info, &two),
        Some("       3 total".to_string())
    );
}

#[test]
fn missing_input_is_reported_and_the_next_one_counted() {
    let c = Config::new(
        vec!["missing.txt".to_string(), "b".to_string()],
        false,
        false,
        false,
        false,
    );
    let zero = FileInfo { num_lines: 0, num_words: 0, num_bytes: 0, num_chars: 0 };
    let failed: Result<String, String> = Err("No such file or directory (os error 2)".to_string());
    let (total, emit) = process_input(&c, &zero, "missing.txt", &failed).unwrap();
    assert_eq!(total, zero);
    assert_eq!(
        emit,
        Emit::Diagnostic("missing.txt: No such file or directory (os error 2)".to_string())
    );
    let text: Result<String, String> = Ok("one two\nthree\n".to_string());
    let (total, emit) = process_input(&c, &total, "b", &text).unwrap();
    assert_eq!(total, FileInfo { num_lines: 2, num_words: 3, num_bytes: 14, num_chars: 14 });
    assert_eq!(emit, Emit::Report("       2       3      14 b".to_string()));
}

#[test]
fn process_input_overflowing_totals() {
    let c = Config::new(vec![], false, false, false, false);
    let full = FileInfo { num_lines: usize::MAX, num_words: 0, num_bytes: 0, num_chars: 0 };
    let text: Result<String, String> = Ok("x\n".to_string());
    assert!(process_input(&c, &full, "f", &text).is_none());
}
