use codecrafters_shell::dir::{expand_tilde, resolve, PathKind};

#[test]
fn tilde_alone_is_home() {
    assert_eq!(expand_tilde("~", Some("/home/u")), "/home/u/");
}

#[test]
fn tilde_slash_is_under_home() {
    assert_eq!(expand_tilde("~/docs", Some("/home/u")), "/home/u/docs");
    assert_eq!(expand_tilde("~/", Some("/home/u")), "/home/u/");
    assert_eq!(expand_tilde("~/a", Some("/home/u/")), "/home/u/a");
}

#[test]
fn tilde_double_slash_is_absolute() {
    assert_eq!(expand_tilde("~//etc", Some("/home/u")), "/etc");
}

#[test]
fn other_paths_unchanged() {
    assert_eq!(expand_tilde("~user", Some("/home/u")), "~user");
    assert_eq!(expand_tilde("/tmp/~", Some("/home/u")), "/tmp/~");
    assert_eq!(expand_tilde("", Some("/home/u")), "");
    assert_eq!(expand_tilde("~", None), "~");
}

#[test]
fn resolve_by_kind() {
    assert_eq!(resolve("d", "d".to_string(), PathKind::Directory), Ok("d".to_string()));
    assert_eq!(
        resolve("~/f", "/home/u/f".to_string(), PathKind::NotDirectory),
        Err("~/f: Not a directory".to_string())
    );
    assert_eq!(
        resolve("nope", "nope".to_string(), PathKind::Missing),
        Err("nope: No such file or directory".to_string())
    );
}

#[test]
fn tilde_path_under_home() {
    assert_eq!(expand_tilde("~/x/y", Some("/home/u")), "/home/u/x/y");
}
