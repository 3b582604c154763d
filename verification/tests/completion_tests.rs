use codecrafters_shell::completion::{adjust_filename_candidates, complete, complete_basic, Candidate, CompletionStep};

fn s(v: &[&str]) -> Vec<String> {
    v.iter().map(|x| x.to_string()).collect()
}

fn texts(v: &[Candidate]) -> Vec<(String, String)> {
    v.iter().map(|c| (c.display.clone(), c.replacement.clone())).collect()
}

fn both(x: &str) -> (String, String) {
    (x.to_string(), x.to_string())
}

#[test]
fn first_word_completes_commands() {
    let execs = s(&["echo", "ecstatic", "ls"]);
    match complete("ec", 2, &execs) {
        CompletionStep::Commands { start, candidates } => {
            assert_eq!(start, 0);
            assert_eq!(texts(&candidates), vec![both("echo "), both("ecstatic ")]);
        }
        CompletionStep::Filenames => panic!("expected commands"),
    }
}

#[test]
fn empty_word_offers_everything_once() {
    let execs = s(&["cd", "zz"]);
    match complete("", 0, &execs) {
        CompletionStep::Commands { start, candidates } => {
            assert_eq!(start, 0);
            assert_eq!(
                texts(&candidates),
                vec![
                    both("exit "),
                    both("echo "),
                    both("type "),
                    both("pwd "),
                    both("cd "),
                    both("history "),
                    both("zz ")
                ]
            );
        }
        CompletionStep::Filenames => panic!("expected commands"),
    }
}

#[test]
fn leading_blanks_still_first_word() {
    match complete("   ex", 5, &[]) {
        CompletionStep::Commands { start, candidates } => {
            assert_eq!(start, 3);
            assert_eq!(texts(&candidates), vec![both("exit ")]);
        }
        CompletionStep::Filenames => panic!("expected commands"),
    }
}

#[test]
fn later_word_is_a_file_name() {
    assert!(matches!(complete("ls fo", 5, &[]), CompletionStep::Filenames));
    assert!(matches!(complete("cat x y", 5, &[]), CompletionStep::Filenames));
}

#[test]
fn cursor_inside_the_line() {
    match complete("ech more", 3, &[]) {
        CompletionStep::Commands { start, candidates } => {
            assert_eq!(start, 0);
            assert_eq!(texts(&candidates), vec![both("echo ")]);
        }
        CompletionStep::Filenames => panic!("expected commands"),
    }
}

#[test]
fn multibyte_line() {
    let execs = s(&["été"]);
    match complete("ét", "ét".len(), &execs) {
        CompletionStep::Commands { start, candidates } => {
            assert_eq!(start, 0);
            assert_eq!(texts(&candidates), vec![both("été ")]);
        }
        CompletionStep::Filenames => panic!("expected commands"),
    }
}

#[test]
fn basic_completer() {
    let (start, c) = complete_basic("e", 1);
    assert_eq!(start, 0);
    assert_eq!(texts(&c), vec![both("echo "), both("exit ")]);
    let (start, c) = complete_basic("foo ex", 6);
    assert_eq!(start, 4);
    assert_eq!(texts(&c), vec![both("exit ")]);
    let (_, c) = complete_basic("x", 1);
    assert!(c.is_empty());
}

#[test]
fn filename_adjustments() {
    let v = vec![
        Candidate { display: "dir".to_string(), replacement: "dir/".to_string() },
        Candidate { display: "dir2/".to_string(), replacement: "dir2/".to_string() },
        Candidate { display: "file".to_string(), replacement: "file".to_string() },
        Candidate { display: "sp".to_string(), replacement: "sp ".to_string() },
    ];
    assert_eq!(
        texts(&adjust_filename_candidates(v)),
        vec![
            ("dir/".to_string(), "dir/".to_string()),
            ("dir2/".to_string(), "dir2/".to_string()),
            ("file".to_string(), "file ".to_string()),
            ("sp".to_string(), "sp ".to_string()),
        ]
    );
}
