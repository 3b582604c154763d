use codecrafters_shell::builtins::{
    builtin_kind, builtin_names, cd_change_error, cd_error, cd_target, echo_line, exit_status, is_builtin,
    pwd_report, type_report, type_step, Builtin, TypeStep,
};
use codecrafters_shell::exec::{command_failed, command_not_found};
use codecrafters_shell::redirect::Stream;

#[test]
fn names_of_builtins() {
    assert_eq!(builtin_names(), vec!["exit", "echo", "type", "pwd", "cd", "history"]);
    assert_eq!(builtin_kind("cd"), Some(Builtin::Cd));
    assert_eq!(builtin_kind("history"), Some(Builtin::History));
    assert_eq!(builtin_kind("ls"), None);
    assert!(is_builtin("echo"));
    assert!(!is_builtin("Echo"));
    assert!(!is_builtin(""));
}

#[test]
fn exit_defaults_to_zero() {
    assert_eq!(exit_status(&[]), Ok(0));
}

#[test]
fn exit_with_code() {
    assert_eq!(exit_status(&["42"]), Ok(42));
    assert_eq!(exit_status(&["-1", "ignored"]), Ok(-1));
    assert_eq!(exit_status(&["+7"]), Ok(7));
    assert_eq!(exit_status(&["-2147483648"]), Ok(i32::MIN));
}

#[test]
fn exit_with_bad_code() {
    assert_eq!(exit_status(&["abc"]), Err("exit: abc: numeric argument required".to_string()));
    assert_eq!(
        exit_status(&["2147483648"]),
        Err("exit: 2147483648: numeric argument required".to_string())
    );
    assert!(exit_status(&[" 1"]).is_err());
    assert!(exit_status(&["+"]).is_err());
    assert!(exit_status(&[""]).is_err());
}

#[test]
fn echo_joins_with_spaces() {
    assert_eq!(echo_line(&["hello", "world"]), "hello world");
    assert_eq!(echo_line(&[]), "");
    assert_eq!(echo_line(&["a", "", "b"]), "a  b");
}

#[test]
fn type_without_argument() {
    match type_step(&[]) {
        TypeStep::Report(o) => {
            assert_eq!(o.stream, Stream::Stderr);
            assert_eq!(o.text, "type: missing argument");
        }
        TypeStep::Lookup(_) => panic!("expected a report"),
    }
}

#[test]
fn type_of_builtin() {
    match type_step(&["pwd"]) {
        TypeStep::Report(o) => {
            assert_eq!(o.stream, Stream::Stdout);
            assert_eq!(o.text, "pwd is a shell builtin");
        }
        TypeStep::Lookup(_) => panic!("expected a report"),
    }
}

#[test]
fn type_of_other_name_looks_it_up() {
    match type_step(&["ls"]) {
        TypeStep::Lookup(n) => assert_eq!(n, "ls"),
        TypeStep::Report(_) => panic!("expected a lookup"),
    }
    assert_eq!(type_report("ls", Some("/bin/ls")), "ls is /bin/ls");
    assert_eq!(type_report("nope", None), "nope: not found");
}

#[test]
fn pwd_lines() {
    let o = pwd_report(Ok("/home/u"));
    assert_eq!((o.stream, o.text.as_str()), (Stream::Stdout, "/home/u"));
    let e = pwd_report(Err("gone"));
    assert_eq!((e.stream, e.text.as_str()), (Stream::Stderr, "pwd: gone"));
}

#[test]
fn cd_targets() {
    assert_eq!(cd_target(&["/tmp"], Some("/home/u")), Ok("/tmp".to_string()));
    assert_eq!(cd_target(&[], Some("/home/u")), Ok("/home/u".to_string()));
    assert_eq!(cd_target(&[], None), Err("cd: HOME not set".to_string()));
    assert_eq!(cd_error("x: Not a directory"), "cd: x: Not a directory");
    assert_eq!(cd_change_error("/root", "Permission denied"), "cd: /root: Permission denied");
}

#[test]
fn exec_messages() {
    assert_eq!(command_not_found("foo"), "foo: command not found");
    assert_eq!(command_failed("foo", "boom"), "foo: boom");
}
