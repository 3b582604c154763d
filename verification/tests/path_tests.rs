use codecrafters_shell::path::{executable_candidates, executable_mode, sorted_unique};

fn s(v: &[&str]) -> Vec<String> {
    v.iter().map(|x| x.to_string()).collect()
}

#[test]
fn execute_bits() {
    assert!(executable_mode(true, 0o755));
    assert!(executable_mode(true, 0o100));
    assert!(executable_mode(true, 0o001));
    assert!(!executable_mode(true, 0o644));
    assert!(!executable_mode(false, 0o777));
}

#[test]
fn absolute_command_is_its_own_candidate() {
    let dirs = s(&["/usr/bin"]);
    assert_eq!(executable_candidates("/bin/ls", Some(&dirs)), s(&["/bin/ls"]));
    assert_eq!(executable_candidates("/bin/ls", None), s(&["/bin/ls"]));
}

#[test]
fn no_path_no_candidates() {
    assert!(executable_candidates("ls", None).is_empty());
}

#[test]
fn candidates_under_each_directory() {
    let dirs = s(&["/usr/local/bin", "/bin/", ""]);
    assert_eq!(
        executable_candidates("ls", Some(&dirs)),
        s(&["/usr/local/bin/ls", "/bin/ls", "ls"])
    );
}

#[test]
fn relative_command_with_slash() {
    let dirs = s(&["/opt"]);
    assert_eq!(executable_candidates("sub/tool", Some(&dirs)), s(&["/opt/sub/tool"]));
}

#[test]
fn sorted_and_deduplicated() {
    assert_eq!(sorted_unique(s(&["b", "a", "b", "c", "a"])), s(&["a", "b", "c"]));
    assert!(sorted_unique(Vec::new()).is_empty());
}

#[test]
fn sorted_by_bytes() {
    assert_eq!(
        sorted_unique(s(&["é", "z", "Z", "a-b", "a", "ab"])),
        s(&["Z", "a", "a-b", "ab", "z", "é"])
    );
}
