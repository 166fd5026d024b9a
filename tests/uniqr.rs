use unixr::uniqr::{collapse, format_run, Collapser, Run};

fn lines(v: &[&str]) -> Vec<String> {
    v.iter().map(|s| s.to_string()).collect()
}

fn pairs(runs: &[Run]) -> Vec<(String, usize)> {
    runs.iter().map(|r| (r.line.clone(), r.count)).collect()
}

#[test]
fn collapse_mixed_runs() {
    let r = collapse(&lines(&["a", "a", "b", "a"]));
    assert_eq!(
        pairs(&r),
        vec![("a".to_string(), 2), ("b".to_string(), 1), ("a".to_string(), 1)]
    );
}

#[test]
fn collapse_one_line_repeated() {
    let r = collapse(&lines(&["x", "x", "x", "x", "x"]));
    assert_eq!(pairs(&r), vec![("x".to_string(), 5)]);
}

#[test]
fn collapse_empty_and_single() {
    assert!(collapse(&Vec::new()).is_empty());
    assert_eq!(pairs(&collapse(&lines(&[""]))), vec![(String::new(), 1)]);
}

#[test]
fn counts_add_up_and_runs_are_maximal() {
    let input = lines(&["a\n", "a\n", "b\n", "b\n", "b\n", "c\n", "a\n", "a"]);
    let r = collapse(&input);
    let total: usize = r.iter().map(|x| x.count).sum();
    assert_eq!(total, input.len());
    for w in r.windows(2) {
        assert_ne!(w[0].line, w[1].line);
    }
}

#[test]
fn collapsing_representatives_again_gives_singletons() {
    let r = collapse(&lines(&["a", "a", "b", "a", "c", "c"]));
    let reps: Vec<String> = r.iter().map(|x| x.line.clone()).collect();
    let again = collapse(&reps);
    assert_eq!(again.len(), reps.len());
    for (run, rep) in again.iter().zip(reps.iter()) {
        assert_eq!(&run.line, rep);
        assert_eq!(run.count, 1);
    }
}

#[test]
fn streaming_collapser_emits_on_change_and_at_end() {
    let mut c = Collapser::new();
    assert!(c.push("a\n".to_string()).is_none());
    assert!(c.push("a\n".to_string()).is_none());
    assert_eq!(c.open_count(), 2);
    let r = c.push("b\n".to_string()).unwrap();
    assert_eq!((r.line.as_str(), r.count), ("a\n", 2));
    let last = c.finish().unwrap();
    assert_eq!((last.line.as_str(), last.count), ("b\n", 1));
    assert!(Collapser::new().finish().is_none());
}

#[test]
fn format_run_with_and_without_count() {
    let r = Run { line: "hello\n".to_string(), count: 3 };
    assert_eq!(format_run(&r, true), "   3 hello\n");
    assert_eq!(format_run(&r, false), "hello\n");
    let r = Run { line: "x".to_string(), count: 12345 };
    assert_eq!(format_run(&r, true), "12345 x");
}
