use codecrafters_shell::redirect::{next_filename, parse, parse_redirections, OpenMode, RedirectPlan, Stream};

fn s(v: &[&str]) -> Vec<String> {
    v.iter().map(|x| x.to_string()).collect()
}

fn ops(p: &RedirectPlan) -> Vec<(Stream, OpenMode, String)> {
    p.ops.iter().map(|o| (o.stream, o.mode, o.filename.clone())).collect()
}

#[test]
fn no_operator_leaves_tokens() {
    let p = parse(&s(&["echo", "a", "b"]));
    assert_eq!(p.cmd_tokens, s(&["echo", "a", "b"]));
    assert!(p.ops.is_empty());
    assert!(p.error.is_none());
}

#[test]
fn stdout_truncate() {
    let p = parse(&s(&["echo", "hi", ">", "out.txt"]));
    assert_eq!(p.cmd_tokens, s(&["echo", "hi"]));
    assert_eq!(ops(&p), vec![(Stream::Stdout, OpenMode::Truncate, "out.txt".to_string())]);
    assert!(p.error.is_none());
}

#[test]
fn every_operator() {
    let p = parse(&s(&["c", "1>", "a", ">>", "b", "1>>", "c", "2>", "d", "2>>", "e", "x"]));
    assert_eq!(p.cmd_tokens, s(&["c", "x"]));
    assert_eq!(
        ops(&p),
        vec![
            (Stream::Stdout, OpenMode::Truncate, "a".to_string()),
            (Stream::Stdout, OpenMode::Append, "b".to_string()),
            (Stream::Stdout, OpenMode::Append, "c".to_string()),
            (Stream::Stderr, OpenMode::Truncate, "d".to_string()),
            (Stream::Stderr, OpenMode::Append, "e".to_string()),
        ]
    );
}

#[test]
fn operator_without_filename_is_a_syntax_error() {
    let p = parse(&s(&["echo", "x", "2>", "err", ">"]));
    assert_eq!(p.error.as_deref(), Some("syntax error: expected filename after redirection"));
    assert_eq!(ops(&p), vec![(Stream::Stderr, OpenMode::Truncate, "err".to_string())]);
}

#[test]
fn operator_as_filename() {
    let p = parse(&s(&[">", ">", "x"]));
    assert_eq!(ops(&p), vec![(Stream::Stdout, OpenMode::Truncate, ">".to_string())]);
    assert_eq!(p.cmd_tokens, s(&["x"]));
}

#[test]
fn simple_scanner_knows_no_append() {
    let p = parse_redirections(&s(&["echo", ">>", "f", "2>", "g"]));
    assert_eq!(p.cmd_tokens, s(&["echo", ">>", "f"]));
    assert_eq!(ops(&p), vec![(Stream::Stderr, OpenMode::Truncate, "g".to_string())]);
    let q = parse_redirections(&s(&["ls", "1>"]));
    assert!(q.error.is_some());
}

#[test]
fn next_filename_found_or_not() {
    let t = s(&[">", "f"]);
    assert_eq!(next_filename(&t, 0), Ok("f"));
    assert_eq!(
        next_filename(&t, 1),
        Err("syntax error: expected filename after redirection".to_string())
    );
}

#[test]
fn law_every_token_is_accounted_for() {
    let t = s(&["a", ">", "f", "b", "2>>", "g", "c", "1>"]);
    let p = parse(&t);
    let dangling = if p.error.is_some() { 1 } else { 0 };
    assert_eq!(p.cmd_tokens.len() + 2 * p.ops.len() + dangling, t.len());
}

use codecrafters_shell::redirect::last_redirect;

#[test]
fn later_redirection_wins() {
    let p = parse(&s(&["c", ">", "a", "2>", "e", ">>", "b", "x"]));
    assert_eq!(last_redirect(&p.ops, Stream::Stdout), Some(2));
    assert_eq!(last_redirect(&p.ops, Stream::Stderr), Some(1));
    let q = parse(&s(&["c"]));
    assert_eq!(last_redirect(&q.ops, Stream::Stdout), None);
}
