use codecrafters_shell::builtins::echo_line;
use codecrafters_shell::tokenizer::tokenize;

fn toks(s: &str) -> Vec<String> {
    tokenize(s)
}

#[test]
fn splits_on_whitespace() {
    assert_eq!(toks("echo hello world"), vec!["echo", "hello", "world"]);
}

#[test]
fn collapses_runs_of_ascii_whitespace() {
    assert_eq!(toks("  ls \t -l\r\n  /tmp  "), vec!["ls", "-l", "/tmp"]);
}

#[test]
fn vertical_tab_is_not_a_separator() {
    assert_eq!(toks("a\u{0B}b"), vec!["a\u{0B}b"]);
}

#[test]
fn empty_input_has_no_tokens() {
    assert!(toks("").is_empty());
    assert!(toks("   ").is_empty());
}

#[test]
fn single_quotes_keep_everything_literal() {
    assert_eq!(toks("echo 'hello   world'"), vec!["echo", "hello   world"]);
    assert_eq!(toks(r#"'a\"b$c'"#), vec![r#"a\"b$c"#]);
}

#[test]
fn adjacent_quotes_join_into_one_token() {
    assert_eq!(toks("'ab''cd'"), vec!["abcd"]);
    assert_eq!(toks(r#"x"y"'z'w"#), vec!["xyzw"]);
}

#[test]
fn empty_quotes_make_an_empty_token() {
    assert_eq!(toks("''"), vec![""]);
    assert_eq!(toks(r#"echo """#), vec!["echo", ""]);
}

#[test]
fn double_quotes_escape_special_characters() {
    assert_eq!(toks(r#""a\"b\\c\$d\`e""#), vec![r#"a"b\c$d`e"#]);
    assert_eq!(toks("\"a\\\nb\""), vec!["a\nb"]);
}

#[test]
fn double_quotes_keep_other_backslashes() {
    assert_eq!(toks(r#""a\nb""#), vec![r"a\nb"]);
    assert_eq!(toks(r#""it's""#), vec!["it's"]);
}

#[test]
fn backslash_outside_quotes_escapes_next_char() {
    assert_eq!(toks(r"a\ b"), vec!["a b"]);
    assert_eq!(toks(r"\'"), vec!["'"]);
    assert_eq!(toks(r"\\"), vec![r"\"]);
}

#[test]
fn trailing_backslash_is_dropped() {
    assert_eq!(toks("abc\\"), vec!["abc"]);
    assert_eq!(toks("\\"), vec![""]);
}

#[test]
fn unterminated_quotes_run_to_the_end() {
    assert_eq!(toks("'abc def"), vec!["abc def"]);
    assert_eq!(toks("\"abc"), vec!["abc"]);
    assert_eq!(toks("\"ab\\"), vec!["ab\\"]);
}

#[test]
fn law_joined_words_tokenize_back() {
    let words = ["ls", "-la", "/usr/bin", "x=1"];
    let line = echo_line(&words);
    assert_eq!(line, "ls -la /usr/bin x=1");
    assert_eq!(tokenize(&line), words.to_vec());
}

#[test]
fn law_single_quoted_text_is_one_token() {
    assert_eq!(toks("'  \\ \" $x  '"), vec!["  \\ \" $x  "]);
}

#[test]
fn law_double_quoted_text_is_one_token() {
    assert_eq!(toks("\" a 'b' c \""), vec![" a 'b' c "]);
}

#[test]
fn unicode_passes_through() {
    assert_eq!(toks("héllo 'wörld' ✓"), vec!["héllo", "wörld", "✓"]);
}

#[test]
fn law_unquoted_line_splits_on_whitespace() {
    let line = " a\tbb  c\r\n dd ";
    let expected: Vec<String> = line.split_ascii_whitespace().map(|w| w.to_string()).collect();
    assert_eq!(toks(line), expected);
}

#[test]
fn law_single_quoted_words_come_back() {
    let words = ["a b", "", "x\"y\\z", "  "];
    let line = words.iter().map(|w| format!("'{}'", w)).collect::<Vec<_>>().join(" ");
    assert_eq!(toks(&line), words.to_vec());
}

#[test]
fn law_tokenize_concatenates_at_a_space() {
    let a = "ls  -l";
    let b = "'x y' \"z\"";
    let mut expected = toks(a);
    expected.extend(toks(b));
    assert_eq!(toks(&format!("{} {}", a, b)), expected);
}

use codecrafters_shell::tokenizer::tokenize_marked;

#[test]
fn bare_marks() {
    let (t, bare) = tokenize_marked(r#"a '|' \| "b"c | d"#);
    assert_eq!(t, vec!["a", "|", "|", "bc", "|", "d"]);
    assert_eq!(bare, vec![true, false, false, false, true, true]);
    let (t, bare) = tokenize_marked("''");
    assert_eq!(t, vec![""]);
    assert_eq!(bare, vec![false]);
}
