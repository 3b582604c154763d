use codecrafters_shell::builtins::Output;
use codecrafters_shell::history::{cmd_history, history_file_error, history_read_error, HistoryAction};
use codecrafters_shell::redirect::Stream;
use rustyline::history::{FileHistory, History};

fn hist(entries: &[&str]) -> FileHistory {
    let mut h = FileHistory::new();
    for e in entries {
        h.add(e).unwrap();
    }
    h
}

fn printed(a: HistoryAction) -> Vec<(Stream, String)> {
    match a {
        HistoryAction::Print(v) => v.into_iter().map(|o: Output| (o.stream, o.text)).collect(),
        _ => panic!("expected lines to print"),
    }
}

fn out(s: &str) -> (Stream, String) {
    (Stream::Stdout, s.to_string())
}

fn err(s: &str) -> (Stream, String) {
    (Stream::Stderr, s.to_string())
}

#[test]
fn lists_everything() {
    let mut h = hist(&["ls", "pwd", "echo hi"]);
    assert_eq!(
        printed(cmd_history(&mut h, &[], 0)),
        vec![out("   1  ls"), out("   2  pwd"), out("   3  echo hi")]
    );
    assert_eq!(h.len(), 3);
}

#[test]
fn lists_the_last_n() {
    let mut h = hist(&["a", "b", "c"]);
    assert_eq!(printed(cmd_history(&mut h, &["2"], 0)), vec![out("   2  b"), out("   3  c")]);
    assert_eq!(printed(cmd_history(&mut h, &["0"], 0)), vec![]);
}

#[test]
fn law_large_n_lists_all() {
    let mut h = hist(&["a", "b"]);
    let all = printed(cmd_history(&mut h, &[], 0));
    assert_eq!(printed(cmd_history(&mut h, &["10"], 0)), all);
    assert_eq!(printed(cmd_history(&mut h, &["+2"], 0)), all);
}

#[test]
fn bad_count() {
    let mut h = hist(&["a"]);
    assert_eq!(
        printed(cmd_history(&mut h, &["x"], 0)),
        vec![err("history: x: numeric argument required")]
    );
    assert_eq!(
        printed(cmd_history(&mut h, &["-5"], 0)),
        vec![err("history: -5: numeric argument required")]
    );
}

#[test]
fn clear_empties() {
    let mut h = hist(&["a", "b"]);
    match cmd_history(&mut h, &["-c"], 2) {
        HistoryAction::Cleared { flushed } => assert_eq!(flushed, 0),
        _ => panic!("expected a clear"),
    }
    assert_eq!(h.len(), 0);
    assert_eq!(printed(cmd_history(&mut h, &[], 0)), vec![]);
}

#[test]
fn law_append_after_clear_appends_new_entries() {
    let mut h = hist(&["a", "b", "c"]);
    let flushed = match cmd_history(&mut h, &["-a", "f"], 0) {
        HistoryAction::Append { flushed, .. } => flushed,
        _ => panic!("expected an append"),
    };
    assert_eq!(flushed, 3);
    let flushed = match cmd_history(&mut h, &["-c"], flushed) {
        HistoryAction::Cleared { flushed } => flushed,
        _ => panic!("expected a clear"),
    };
    h.add("x").unwrap();
    h.add("y").unwrap();
    match cmd_history(&mut h, &["-a", "f"], flushed) {
        HistoryAction::Append { lines, flushed, .. } => {
            assert_eq!(lines, vec!["x", "y"]);
            assert_eq!(flushed, 2);
        }
        _ => panic!("expected an append"),
    }
}

#[test]
fn delete_is_refused() {
    let mut h = hist(&["a", "b"]);
    assert_eq!(
        printed(cmd_history(&mut h, &["-d"], 0)),
        vec![err("history: -d: option requires an argument")]
    );
    assert_eq!(
        printed(cmd_history(&mut h, &["-d", "2"], 0)),
        vec![err("history: -d requires mutable access (not yet supported)")]
    );
    assert_eq!(
        printed(cmd_history(&mut h, &["-d", "3"], 0)),
        vec![err("history: 3: invalid option")]
    );
    assert_eq!(
        printed(cmd_history(&mut h, &["-d", "0"], 0)),
        vec![err("history: 0: invalid option")]
    );
    assert_eq!(h.len(), 2);
}

#[test]
fn append_new_entries() {
    let mut h = hist(&["a", "b", "c"]);
    match cmd_history(&mut h, &["-a", "f"], 1) {
        HistoryAction::Append { filename, lines, flushed } => {
            assert_eq!(filename, "f");
            assert_eq!(lines, vec!["b", "c"]);
            assert_eq!(flushed, 3);
        }
        _ => panic!("expected an append"),
    }
}

#[test]
fn law_second_append_appends_nothing() {
    let mut h = hist(&["a", "b"]);
    let flushed = match cmd_history(&mut h, &["-a", "f"], 0) {
        HistoryAction::Append { flushed, .. } => flushed,
        _ => panic!("expected an append"),
    };
    assert_eq!(printed(cmd_history(&mut h, &["-a", "f"], flushed)), vec![]);
}

#[test]
fn options_need_a_file() {
    let mut h = hist(&["a"]);
    for opt in ["-a", "-r", "-w"] {
        assert_eq!(
            printed(cmd_history(&mut h, &[opt], 0)),
            vec![err(&format!("history: {}: option requires an argument", opt))]
        );
    }
}

#[test]
fn write_and_read() {
    let mut h = hist(&["a", "b"]);
    match cmd_history(&mut h, &["-w", "out"], 0) {
        HistoryAction::Write { filename, lines } => {
            assert_eq!(filename, "out");
            assert_eq!(lines, vec!["a", "b"]);
        }
        _ => panic!("expected a write"),
    }
    match cmd_history(&mut h, &["-r", "in"], 0) {
        HistoryAction::Read { filename } => assert_eq!(filename, "in"),
        _ => panic!("expected a read"),
    }
}

#[test]
fn file_error_lines() {
    assert_eq!(history_file_error("f", "denied"), "history: f: denied");
    assert_eq!(history_read_error("f"), "history: f: cannot read");
}
