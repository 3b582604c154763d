use codecrafters_shell::pipeline::split_pipeline;

fn s(v: &[&str]) -> Vec<String> {
    v.iter().map(|x| x.to_string()).collect()
}

fn split(t: &[String]) -> Vec<Vec<String>> {
    split_pipeline(t, &vec![true; t.len()])
}

#[test]
fn one_stage_without_pipe() {
    assert_eq!(split(&s(&["ls", "-l"])), vec![s(&["ls", "-l"])]);
    assert_eq!(split(&[]), vec![Vec::<String>::new()]);
}

#[test]
fn stages_between_pipes() {
    assert_eq!(
        split(&s(&["ls", "|", "grep", "foo", "|", "wc", "-l"])),
        vec![s(&["ls"]), s(&["grep", "foo"]), s(&["wc", "-l"])]
    );
}

#[test]
fn empty_stages() {
    let none: Vec<String> = Vec::new();
    assert_eq!(split(&s(&["ls", "|"])), vec![s(&["ls"]), none.clone()]);
    assert_eq!(split(&s(&["|", "|"])), vec![none.clone(), none.clone(), none]);
}

#[test]
fn law_rejoining_gives_the_tokens() {
    let t = s(&["a", "|", "b", "c", "|", "|", "d"]);
    let st = split(&t);
    let back = st.join(&"|".to_string());
    assert_eq!(back, t);
}

use codecrafters_shell::builtins::Builtin;
use codecrafters_shell::pipeline::{stage_action, StageAction, StdinFrom, StdoutTo};
use codecrafters_shell::redirect::parse;

fn act(i: usize, n: usize, toks: &[&str], open_error: Option<&str>, found: bool, prev: bool) -> StageAction {
    stage_action(i, n, &parse(&s(toks)), open_error, found, prev)
}

#[test]
fn stage_errors_stop() {
    match act(0, 2, &["ls", ">"], None, true, false) {
        StageAction::Stop { message, shell_stderr } => {
            assert_eq!(message, "shell: syntax error: expected filename after redirection");
            assert!(shell_stderr);
        }
        other => panic!("unexpected {:?}", other),
    }
    match act(0, 2, &["ls", ">", "f"], Some("f: Permission denied"), true, false) {
        StageAction::Stop { message, shell_stderr } => {
            assert_eq!(message, "shell: f: Permission denied");
            assert!(shell_stderr);
        }
        other => panic!("unexpected {:?}", other),
    }
    match act(1, 2, &[], None, false, true) {
        StageAction::Stop { message, shell_stderr } => {
            assert_eq!(message, "shell: syntax error near unexpected token `|'");
            assert!(shell_stderr);
        }
        other => panic!("unexpected {:?}", other),
    }
    match act(1, 3, &["nosuch", "x"], None, false, true) {
        StageAction::Stop { message, shell_stderr } => {
            assert_eq!(message, "nosuch: command not found");
            assert!(!shell_stderr);
        }
        other => panic!("unexpected {:?}", other),
    }
}

#[test]
fn builtin_stages() {
    match act(0, 2, &["echo", "hi", ">", "f"], None, false, false) {
        StageAction::RunBuiltin { builtin, stdout } => {
            assert_eq!(builtin, Builtin::Echo);
            assert_eq!(stdout, StdoutTo::NextStage);
        }
        other => panic!("unexpected {:?}", other),
    }
    match act(1, 2, &["echo", "hi", ">", "f"], None, false, true) {
        StageAction::RunBuiltin { stdout, .. } => assert_eq!(stdout, StdoutTo::File),
        other => panic!("unexpected {:?}", other),
    }
    match act(1, 2, &["pwd"], None, false, true) {
        StageAction::RunBuiltin { builtin, stdout } => {
            assert_eq!(builtin, Builtin::Pwd);
            assert_eq!(stdout, StdoutTo::Shell);
        }
        other => panic!("unexpected {:?}", other),
    }
}

#[test]
fn external_stages() {
    match act(0, 3, &["ls", "2>", "e"], None, true, false) {
        StageAction::Spawn { stdin, stdout, stderr_to_file } => {
            assert_eq!(stdin, StdinFrom::Shell);
            assert_eq!(stdout, StdoutTo::NextStage);
            assert!(stderr_to_file);
        }
        other => panic!("unexpected {:?}", other),
    }
    match act(1, 3, &["grep", "x", ">", "out"], None, true, true) {
        StageAction::Spawn { stdin, stdout, stderr_to_file } => {
            assert_eq!(stdin, StdinFrom::PreviousStage);
            assert_eq!(stdout, StdoutTo::File);
            assert!(!stderr_to_file);
        }
        other => panic!("unexpected {:?}", other),
    }
    match act(2, 3, &["wc"], None, true, false) {
        StageAction::Spawn { stdin, stdout, .. } => {
            assert_eq!(stdin, StdinFrom::Shell);
            assert_eq!(stdout, StdoutTo::Shell);
        }
        other => panic!("unexpected {:?}", other),
    }
}

#[test]
fn law_only_the_last_stage_writes_to_the_shell() {
    for n in 1..4usize {
        for i in 0..n {
            for toks in [&["ls"][..], &["echo", "a"][..], &["ls", ">", "f"][..]] {
                let shell = match act(i, n, toks, None, true, i > 0) {
                    StageAction::RunBuiltin { stdout, .. } => stdout == StdoutTo::Shell,
                    StageAction::Spawn { stdout, .. } => stdout == StdoutTo::Shell,
                    StageAction::Stop { .. } => false,
                };
                assert_eq!(shell, i + 1 == n && !toks.contains(&">"));
            }
        }
    }
}

use codecrafters_shell::pipeline::stage_in_pipeline;
use codecrafters_shell::tokenizer::tokenize_marked;

fn split_line(line: &str) -> Vec<Vec<String>> {
    let (t, bare) = tokenize_marked(line);
    split_pipeline(&t, &bare)
}

#[test]
fn quoted_pipe_is_a_word() {
    assert_eq!(split_line("echo '|'"), vec![s(&["echo", "|"])]);
    assert_eq!(split_line("echo \\| \"|\""), vec![s(&["echo", "|", "|"])]);
    assert_eq!(split_line("echo a | wc"), vec![s(&["echo", "a"]), s(&["wc"])]);
}

#[test]
fn law_each_stage_reads_what_the_previous_left() {
    let first = stage_in_pipeline(0, 3, &parse(&s(&["ls"])), None, true, None);
    assert!(matches!(first, StageAction::Spawn { stdin: StdinFrom::Shell, stdout: StdoutTo::NextStage, .. }));
    let second = stage_in_pipeline(1, 3, &parse(&s(&["grep", "x", ">", "f"])), None, true, Some(&first));
    assert!(matches!(second, StageAction::Spawn { stdin: StdinFrom::PreviousStage, stdout: StdoutTo::File, .. }));
    let third = stage_in_pipeline(2, 3, &parse(&s(&["wc"])), None, true, Some(&second));
    assert!(matches!(third, StageAction::Spawn { stdin: StdinFrom::Shell, stdout: StdoutTo::Shell, .. }));
    let after_builtin = stage_in_pipeline(
        1,
        2,
        &parse(&s(&["wc"])),
        None,
        true,
        Some(&stage_in_pipeline(0, 2, &parse(&s(&["echo", "a"])), None, false, None)),
    );
    assert!(matches!(after_builtin, StageAction::Spawn { stdin: StdinFrom::PreviousStage, .. }));
}
