use vstd::prelude::*;
use vstd::utf8::decode_utf8;
use vstd::utf8::encode_utf8;
use vstd::utf8::encode_utf8_decode_utf8;
use vstd::utf8::is_char_boundary;

use crate::builtins::{builtin_names, spec_builtin_names};
use crate::text::{concat2, push_char, str_is, str_starts_with, views};

verus! {

/// A completion offered to the line editor: the text shown in the list and
/// the text that replaces the word being completed.
#[derive(Debug)]
pub struct Candidate {
    pub display: String,
    pub replacement: String,
}

impl View for Candidate {
    type V = (Seq<char>, Seq<char>);

    open spec fn view(&self) -> (Seq<char>, Seq<char>) {
        (self.display@, self.replacement@)
    }
}

/// The views of a sequence of candidates.
pub open spec fn candidate_views(v: Seq<Candidate>) -> Seq<(Seq<char>, Seq<char>)> {
    v.map_values(|c: Candidate| c@)
}

/// The byte offset just after the last space before byte offset `pos` of
/// the line `b`, or 0 when there is none: where the word under the cursor
/// starts.
pub open spec fn word_start(b: Seq<u8>, pos: int) -> int
    decreases pos,
{
    if pos <= 0 {
        0
    } else if b[pos - 1] == 32u8 {
        pos
    } else {
        word_start(b, pos - 1)
    }
}

fn is_space(c: char) -> (b: bool)
    ensures
        b == (c == ' '),
{
    c == ' '
}

/// `rustyline::completion::extract_word` with no escape character and the
/// space as the only break character, on a line and a byte offset `pos` in it.
///
/// Claims what its source shows: the word runs from just after the last space
/// before `pos` (or from the start of the line) up to `pos`, and, since the
/// function slices the line there, its start is a character boundary. A space
/// is one byte in UTF-8 and no other character contains that byte.
#[verifier::external_body]
fn extract_word_at(line: &str, pos: usize) -> (r: (usize, String))
    requires
        pos <= encode_utf8(line@).len(),
        is_char_boundary(encode_utf8(line@), pos as int),
    ensures
        r.0 == word_start(encode_utf8(line@), pos as int),
        encode_utf8(r.1@) == encode_utf8(line@).subrange(r.0 as int, pos as int),
        is_char_boundary(encode_utf8(line@), r.0 as int),
{
    let (start, word) = rustyline::completion::extract_word(line, pos, None, is_space);
    (start, word.to_string())
}

/// The characters with the Unicode property White_Space (PropList.txt):
/// U+0009 to U+000D, U+0020, U+0085, U+00A0, U+1680, U+2000 to U+200A,
/// U+2028, U+2029, U+202F, U+205F and U+3000.
pub open spec fn is_white_space(c: char) -> bool {
    ('\u{9}' <= c && c <= '\u{D}') || c == ' ' || c == '\u{85}' || c == '\u{A0}' || c == '\u{1680}'
        || ('\u{2000}' <= c && c <= '\u{200A}') || c == '\u{2028}' || c == '\u{2029}' || c == '\u{202F}'
        || c == '\u{205F}' || c == '\u{3000}'
}

/// `s` without its leading white space.
pub open spec fn trim_start(s: Seq<char>) -> Seq<char>
    decreases s.len(),
{
    if s.len() > 0 && is_white_space(s[0]) {
        trim_start(s.drop_first())
    } else {
        s
    }
}

/// `s` without its trailing white space.
pub open spec fn trim_end(s: Seq<char>) -> Seq<char>
    decreases s.len(),
{
    if s.len() > 0 && is_white_space(s.last()) {
        trim_end(s.drop_last())
    } else {
        s
    }
}

/// `s` without its leading and trailing white space.
pub open spec fn spec_trim(s: Seq<char>) -> Seq<char> {
    trim_end(trim_start(s))
}

/// `str::trim` of std: as its documentation says, `s` with leading and
/// trailing whitespace removed, whitespace being the characters with the
/// Unicode White_Space property.
#[verifier::external_body]
fn trim(s: &str) -> (r: &str)
    ensures
        r@ == spec_trim(s@),
{
    s.trim()
}

/// All characters of `s` are white space.
pub open spec fn all_white(s: Seq<char>) -> bool {
    forall|k: int| 0 <= k < s.len() ==> is_white_space(#[trigger] s[k])
}

proof fn lemma_trim_start_empty(s: Seq<char>)
    ensures
        (trim_start(s).len() == 0) == all_white(s),
        trim_start(s).len() > 0 ==> !is_white_space(trim_start(s)[0]),
    decreases s.len(),
{
    if s.len() > 0 && is_white_space(s[0]) {
        let t = s.drop_first();
        lemma_trim_start_empty(t);
        if all_white(t) {
            assert forall|k: int| 0 <= k < s.len() implies is_white_space(#[trigger] s[k]) by {
                if k > 0 {
                    assert(s[k] == t[k - 1]);
                }
            }
        }
        if all_white(s) {
            assert forall|k: int| 0 <= k < t.len() implies is_white_space(#[trigger] t[k]) by {
                assert(t[k] == s[k + 1]);
            }
        }
    } else if s.len() > 0 {
        assert(!is_white_space(s[0]));
    }
}

proof fn lemma_trim_end_keeps_first(s: Seq<char>)
    requires
        s.len() > 0,
        !is_white_space(s[0]),
    ensures
        trim_end(s).len() > 0,
    decreases s.len(),
{
    if is_white_space(s.last()) {
        if s.len() > 1 {
            lemma_trim_end_keeps_first(s.drop_last());
        }
    }
}

/// Trimming leaves nothing exactly when every character is white space.
proof fn lemma_trim_empty(s: Seq<char>)
    ensures
        (spec_trim(s).len() == 0) == all_white(s),
{
    lemma_trim_start_empty(s);
    if trim_start(s).len() > 0 {
        lemma_trim_end_keeps_first(trim_start(s));
    }
}

/// The names that start with `prefix`, each once, in the order of their
/// first appearance.
pub open spec fn first_matches(names: Seq<Seq<char>>, prefix: Seq<char>) -> Seq<Seq<char>>
    decreases names.len(),
{
    if names.len() == 0 {
        Seq::empty()
    } else {
        let r = first_matches(names.drop_last(), prefix);
        let n = names.last();
        if prefix.is_prefix_of(n) && !r.contains(n) {
            r.push(n)
        } else {
            r
        }
    }
}

/// Each command name offered as itself followed by a space.
pub open spec fn command_candidates(names: Seq<Seq<char>>) -> Seq<(Seq<char>, Seq<char>)> {
    names.map_values(|n: Seq<char>| (n + " "@, n + " "@))
}

fn contains_name(v: &Vec<String>, s: &str) -> (b: bool)
    ensures
        b == views(v@).contains(s@),
{
    let mut i: usize = 0;
    while i < v.len()
        invariant
            i <= v@.len(),
            forall|k: int| 0 <= k < i ==> v@[k]@ != s@,
        decreases v@.len() - i,
    {
        if str_is(v[i].as_str(), s) {
            assert(views(v@)[i as int] == s@);
            return true;
        }
        i = i + 1;
    }
    proof {
        if views(v@).contains(s@) {
            let k = choose|k: int| 0 <= k < views(v@).len() && views(v@)[k] == s@;
            assert(v@[k]@ == s@);
        }
    }
    false
}

fn matching_candidates(names: &Vec<String>, prefix: &str) -> (r: Vec<Candidate>)
    ensures
        candidate_views(r@) == command_candidates(first_matches(views(names@), prefix@)),
{
    let mut chosen: Vec<String> = Vec::new();
    let mut i: usize = 0;
    while i < names.len()
        invariant
            i <= names@.len(),
            views(chosen@) == first_matches(views(names@).take(i as int), prefix@),
        decreases names@.len() - i,
    {
        let n = names[i].as_str();
        proof {
            let t = views(names@).take(i + 1);
            assert(t.drop_last() =~= views(names@).take(i as int));
            assert(t.last() == n@);
        }
        if str_starts_with(n, prefix) && !contains_name(&chosen, n) {
            let c = String::from_str(n);
            proof {
                assert(views(chosen@.push(c)) =~= views(chosen@).push(n@));
            }
            chosen.push(c);
        }
        i = i + 1;
    }
    assert(views(names@).take(names@.len() as int) =~= views(names@));
    let mut r: Vec<Candidate> = Vec::new();
    let mut j: usize = 0;
    while j < chosen.len()
        invariant
            j <= chosen@.len(),
            r@.len() == j,
            forall|k: int| 0 <= k < j ==> #[trigger] r@[k]@ == (chosen@[k]@ + " "@, chosen@[k]@ + " "@),
        decreases chosen@.len() - j,
    {
        let text = concat2(chosen[j].as_str(), " ");
        let display = text.clone();
        r.push(Candidate { display, replacement: text });
        j = j + 1;
    }
    assert(candidate_views(r@) =~= command_candidates(views(chosen@)));
    r
}

/// Completion offers every name that starts with the word, each exactly once,
/// and nothing else.
pub proof fn law_each_match_offered_once(names: Seq<Seq<char>>, prefix: Seq<char>)
    ensures
        forall|i: int, j: int|
            0 <= i < j < first_matches(names, prefix).len() ==> #[trigger] first_matches(names, prefix)[i]
                != #[trigger] first_matches(names, prefix)[j],
        forall|x: Seq<char>|
            #[trigger] first_matches(names, prefix).contains(x) <==> (names.contains(x) && prefix.is_prefix_of(x)),
    decreases names.len(),
{
    if names.len() > 0 {
        let d = names.drop_last();
        law_each_match_offered_once(d, prefix);
        let r = first_matches(d, prefix);
        let n = names.last();
        assert forall|x: Seq<char>| #[trigger] first_matches(names, prefix).contains(x) <==> (names.contains(x)
            && prefix.is_prefix_of(x)) by {
            if names.contains(x) {
                let k = choose|k: int| 0 <= k < names.len() && names[k] == x;
                if k < names.len() - 1 {
                    assert(d[k] == x);
                }
            }
            if d.contains(x) {
                let k = choose|k: int| 0 <= k < d.len() && d[k] == x;
                assert(names[k] == x);
            }
            if prefix.is_prefix_of(n) && !r.contains(n) {
                let r2 = r.push(n);
                if r2.contains(x) {
                    let k = choose|k: int| 0 <= k < r2.len() && r2[k] == x;
                    if k < r.len() {
                        assert(r[k] == x);
                    }
                }
                if r.contains(x) {
                    let k = choose|k: int| 0 <= k < r.len() && r[k] == x;
                    assert(r2[k] == x);
                }
                if x == n {
                    assert(r2[r.len() as int] == x);
                }
            }
        }
    }
}

/// What completing at the cursor comes to.
pub enum CompletionStep {
    /// The word is the command: these commands, to replace from byte `start`.
    Commands { start: usize, candidates: Vec<Candidate> },
    /// The word is an argument: complete it as a file name.
    Filenames,
}

/// The characters of the line up to byte offset `end`.
pub open spec fn chars_before(line: Seq<char>, end: int) -> Seq<char> {
    decode_utf8(encode_utf8(line).subrange(0, end))
}

/// The word under the cursor, which ends at byte offset `pos`.
pub open spec fn word_at(line: Seq<char>, pos: int) -> Seq<char> {
    decode_utf8(encode_utf8(line).subrange(word_start(encode_utf8(line), pos), pos))
}

/// Whether the word under the cursor is the line's first word: only white
/// space stands before it.
pub open spec fn is_first_word(line: Seq<char>, pos: int) -> bool {
    all_white(chars_before(line, word_start(encode_utf8(line), pos)))
}

/// Complete the word that ends at byte offset `pos` of `line`. The first word
/// of a line is completed from the builtins and then the executables on
/// `$PATH`: every one that starts with the word, once, followed by a space.
/// Any later word is a file name.
pub fn complete(line: &str, pos: usize, executables: &[String]) -> (r: CompletionStep)
    requires
        pos <= encode_utf8(line@).len(),
        is_char_boundary(encode_utf8(line@), pos as int),
    ensures
        is_first_word(line@, pos as int) ==> (r matches CompletionStep::Commands { start, candidates }
            && start == word_start(encode_utf8(line@), pos as int) && candidate_views(candidates@)
            == command_candidates(
            first_matches(spec_builtin_names() + views(executables@), word_at(line@, pos as int)),
        )),
        !is_first_word(line@, pos as int) ==> r is Filenames,
{
    let (start, prefix) = extract_word_at(line, pos);
    proof {
        encode_utf8_decode_utf8(prefix@);
    }
    let (before, _) = line.split_at(start);
    proof {
        encode_utf8_decode_utf8(before@);
        lemma_trim_empty(before@);
    }
    if trim(before).is_empty() {
        let mut names = builtin_names();
        let mut i: usize = 0;
        let ghost b = views(names@);
        while i < executables.len()
            invariant
                i <= executables@.len(),
                views(names@) == b + views(executables@).take(i as int),
            decreases executables@.len() - i,
        {
            let e = executables[i].clone();
            proof {
                assert(e@ == executables@[i as int]@);
                assert(views(names@.push(e)) =~= views(names@).push(e@));
                assert(views(executables@).take(i + 1) =~= views(executables@).take(i as int).push(e@));
                assert(views(names@.push(e)) =~= b + views(executables@).take(i + 1));
            }
            names.push(e);
            i = i + 1;
        }
        assert(views(executables@).take(executables@.len() as int) =~= views(executables@));
        let candidates = matching_candidates(&names, prefix.as_str());
        CompletionStep::Commands { start, candidates }
    } else {
        CompletionStep::Filenames
    }
}

/// The commands that the simple completer knows.
pub open spec fn basic_command_names() -> Seq<Seq<char>> {
    seq!["echo"@, "exit"@]
}

/// The simple completer: `echo` and `exit`, whichever start with the word
/// that ends at byte offset `pos`, each followed by a space, to replace from
/// the word's start.
pub fn complete_basic(line: &str, pos: usize) -> (r: (usize, Vec<Candidate>))
    requires
        pos <= encode_utf8(line@).len(),
        is_char_boundary(encode_utf8(line@), pos as int),
    ensures
        r.0 == word_start(encode_utf8(line@), pos as int),
        candidate_views(r.1@) == command_candidates(
            first_matches(basic_command_names(), word_at(line@, pos as int)),
        ),
{
    let (start, prefix) = extract_word_at(line, pos);
    proof {
        encode_utf8_decode_utf8(prefix@);
    }
    let mut names: Vec<String> = Vec::new();
    names.push(String::from_str("echo"));
    names.push(String::from_str("exit"));
    assert(views(names@) =~= basic_command_names());
    let candidates = matching_candidates(&names, prefix.as_str());
    (start, candidates)
}

/// Whether `s` ends with the character `c`.
pub open spec fn ends_with(s: Seq<char>, c: char) -> bool {
    s.len() > 0 && s.last() == c
}

/// A file-name completion as the shell offers it: a directory shows its
/// trailing `/` in the list too, and any other completed name gets a space
/// after it so that the next argument can follow.
pub open spec fn adjust_candidate(c: (Seq<char>, Seq<char>)) -> (Seq<char>, Seq<char>) {
    let display = if ends_with(c.1, '/') && !ends_with(c.0, '/') {
        c.0.push('/')
    } else {
        c.0
    };
    let replacement = if !ends_with(c.1, '/') && !ends_with(c.1, ' ') {
        c.1.push(' ')
    } else {
        c.1
    };
    (display, replacement)
}

fn last_char_is(s: &str, c: char) -> (b: bool)
    ensures
        b == ends_with(s@, c),
{
    let n = s.unicode_len();
    n > 0 && s.get_char(n - 1) == c
}

/// The file-name completions, adjusted one by one.
pub fn adjust_filename_candidates(v: Vec<Candidate>) -> (r: Vec<Candidate>)
    ensures
        candidate_views(r@) == candidate_views(v@).map_values(|c: (Seq<char>, Seq<char>)| adjust_candidate(c)),
{
    let mut r: Vec<Candidate> = Vec::new();
    let mut i: usize = 0;
    while i < v.len()
        invariant
            i <= v@.len(),
            r@.len() == i,
            forall|k: int| 0 <= k < i ==> #[trigger] r@[k]@ == adjust_candidate(v@[k]@),
        decreases v@.len() - i,
    {
        let c = &v[i];
        let mut display = c.display.clone();
        let mut replacement = c.replacement.clone();
        let rep_slash = last_char_is(replacement.as_str(), '/');
        if rep_slash && !last_char_is(display.as_str(), '/') {
            push_char(&mut display, '/');
        }
        if !rep_slash && !last_char_is(replacement.as_str(), ' ') {
            push_char(&mut replacement, ' ');
        }
        r.push(Candidate { display, replacement });
        i = i + 1;
    }
    assert(candidate_views(r@) =~= candidate_views(v@).map_values(
        |c: (Seq<char>, Seq<char>)| adjust_candidate(c),
    ));
    r
}

/// A file-name completion whose replacement does not end in `/` is a file:
/// its display stays as it is and its replacement gets one space after it,
/// unless it already ends in one. One whose replacement ends in `/` is a
/// directory: its replacement stays as it is and its display ends in `/`.
pub proof fn law_file_and_directory_candidates(c: (Seq<char>, Seq<char>))
    ensures
        !(c.1.len() > 0 && c.1.last() == '/') ==> adjust_candidate(c) == (
            c.0,
            if c.1.len() > 0 && c.1.last() == ' ' {
                c.1
            } else {
                c.1.push(' ')
            },
        ),
        (c.1.len() > 0 && c.1.last() == '/') ==> adjust_candidate(c) == (
            if c.0.len() > 0 && c.0.last() == '/' {
                c.0
            } else {
                c.0.push('/')
            },
            c.1,
        ),
{
}

/// The first name, when it starts with the word, is offered first: the
/// builtins, which come before the executables, lead the list in their own
/// order.
pub proof fn law_first_match_leads(names: Seq<Seq<char>>, prefix: Seq<char>)
    requires
        names.len() > 0,
        prefix.is_prefix_of(names[0]),
    ensures
        first_matches(names, prefix).len() > 0,
        first_matches(names, prefix)[0] == names[0],
    decreases names.len(),
{
    if names.len() == 1 {
        assert(names.drop_last() =~= Seq::<Seq<char>>::empty());
    } else {
        let d = names.drop_last();
        assert(d[0] == names[0]);
        law_first_match_leads(d, prefix);
    }
}

} // verus!
