use vstd::prelude::*;

use rustyline::error::ReadlineError;
use rustyline::history::FileHistory;
use rustyline::history::History;

use crate::builtins::{output_views, Output};
use crate::number::{decimal_width4, is_digit, pad_left, parse_usize, spec_decimal, spec_parse_usize};
use crate::redirect::Stream;
use crate::text::{concat2, concat3, str_is, str_views, views};

verus! {

/// The history of command lines that the line editor keeps.
#[verifier::external_type_specification]
#[verifier::external_body]
pub struct ExFileHistory(FileHistory);

/// The error type of the line editor.
#[verifier::external_type_specification]
#[verifier::external_body]
pub struct ExReadlineError(ReadlineError);

/// The entries of a history, oldest first.
pub uninterp spec fn history_entries(h: FileHistory) -> Seq<Seq<char>>;

/// `History::len` of `FileHistory`: the number of entries.
#[verifier::external_body]
fn history_len(h: &FileHistory) -> (n: usize)
    ensures
        n == history_entries(*h).len(),
{
    h.len()
}

/// `FileHistory::iter`: the entries, oldest first, each copied out.
#[verifier::external_body]
fn history_lines(h: &FileHistory) -> (r: Vec<String>)
    ensures
        views(r@) == history_entries(*h),
{
    h.iter().map(|e| e.to_string()).collect()
}

/// `History::clear` of `FileHistory`: it empties the entries in memory, and its
/// source returns `Ok` in every case.
#[verifier::external_body]
fn history_clear(h: &mut FileHistory) -> (r: Result<(), ReadlineError>)
    ensures
        r is Ok,
        history_entries(*final(h)) == Seq::<Seq<char>>::empty(),
{
    h.clear()
}

/// What `history` asks the shell to do with the outside world.
pub enum HistoryAction {
    /// Write these lines.
    Print(Vec<Output>),
    /// Append these entries to the file, one per line; once that succeeds,
    /// the entries up to `flushed` count as appended.
    Append { filename: String, lines: Vec<String>, flushed: usize },
    /// Create or empty the file and write these entries to it, one per line.
    Write { filename: String, lines: Vec<String> },
    /// Read the file's entries into the history.
    Read { filename: String },
    /// The history was emptied: none of its entries has been appended to a
    /// file since, so the count of appended entries is now `flushed` (zero).
    Cleared { flushed: usize },
}

/// `HistoryAction` as a mathematical value.
pub enum HistoryEffect {
    Print(Seq<(Stream, Seq<char>)>),
    Append(Seq<char>, Seq<Seq<char>>, int),
    Write(Seq<char>, Seq<Seq<char>>),
    Read(Seq<char>),
    Cleared(int),
}

impl HistoryAction {
    pub open spec fn effect(&self) -> HistoryEffect {
        match self {
            HistoryAction::Print(v) => HistoryEffect::Print(output_views(v@)),
            HistoryAction::Append { filename, lines, flushed } => HistoryEffect::Append(
                filename@,
                views(lines@),
                *flushed as int,
            ),
            HistoryAction::Write { filename, lines } => HistoryEffect::Write(filename@, views(lines@)),
            HistoryAction::Read { filename } => HistoryEffect::Read(filename@),
            HistoryAction::Cleared { flushed } => HistoryEffect::Cleared(*flushed as int),
        }
    }
}

/// One numbered line of the listing: the number right-aligned in four
/// columns, two spaces, the entry (`format!("{:>4}  {}", n, entry)`).
pub open spec fn spec_history_line(n: nat, entry: Seq<char>) -> Seq<char> {
    pad_left(spec_decimal(n), 4) + "  "@ + entry
}

/// The listing of the entries from position `start` on, each numbered by its
/// place in the whole history, counting from 1.
pub open spec fn spec_listing(entries: Seq<Seq<char>>, start: int) -> Seq<(Stream, Seq<char>)> {
    Seq::new(
        (entries.len() - start) as nat,
        |k: int| (Stream::Stdout, spec_history_line((start + k + 1) as nat, entries[start + k])),
    )
}

/// One error line.
pub open spec fn error_line(msg: Seq<char>) -> Seq<(Stream, Seq<char>)> {
    seq![(Stream::Stderr, msg)]
}

/// What `history args...` does with history `entries`, when the entries
/// before position `flushed` have already been appended to a file:
///
/// - no argument: list every entry;
/// - `N`: list the last `N` entries (all of them if there are fewer);
/// - `-c`: empty the history; the count of appended entries starts again
///   from zero, so that entries added later count as new;
/// - `-a FILE`: append the entries not appended yet;
/// - `-w FILE`: write every entry to the file;
/// - `-r FILE`: read the file into the history;
/// - `-d N`: refused, deleting is not supported.
pub open spec fn spec_history(entries: Seq<Seq<char>>, args: Seq<Seq<char>>, flushed: int) -> HistoryEffect {
    let len = entries.len() as int;
    if args.len() == 0 {
        HistoryEffect::Print(spec_listing(entries, 0))
    } else {
        let a = args[0];
        if a == "-c"@ {
            HistoryEffect::Cleared(0)
        } else if a == "-d"@ {
            if args.len() < 2 {
                HistoryEffect::Print(error_line("history: -d: option requires an argument"@))
            } else {
                match spec_parse_usize(args[1]) {
                    Some(n) if 1 <= n <= len => HistoryEffect::Print(
                        error_line("history: -d requires mutable access (not yet supported)"@),
                    ),
                    _ => HistoryEffect::Print(error_line("history: "@ + args[1] + ": invalid option"@)),
                }
            }
        } else if a == "-a"@ {
            if args.len() < 2 {
                HistoryEffect::Print(error_line("history: -a: option requires an argument"@))
            } else if flushed < len {
                HistoryEffect::Append(args[1], entries.skip(flushed), len)
            } else {
                HistoryEffect::Print(Seq::empty())
            }
        } else if a == "-r"@ {
            if args.len() < 2 {
                HistoryEffect::Print(error_line("history: -r: option requires an argument"@))
            } else {
                HistoryEffect::Read(args[1])
            }
        } else if a == "-w"@ {
            if args.len() < 2 {
                HistoryEffect::Print(error_line("history: -w: option requires an argument"@))
            } else {
                HistoryEffect::Write(args[1], entries)
            }
        } else {
            match spec_parse_usize(a) {
                Some(n) => HistoryEffect::Print(
                    spec_listing(entries, if n >= len { 0 } else { len - n }),
                ),
                None => HistoryEffect::Print(error_line("history: "@ + a + ": numeric argument required"@)),
            }
        }
    }
}

fn history_line(n: usize, entry: &str) -> (r: String)
    ensures
        r@ == spec_history_line(n as nat, entry@),
{
    let mut r = decimal_width4(n);
    r.append("  ");
    r.append(entry);
    r
}

fn listing(lines: &Vec<String>, start: usize) -> (r: Vec<Output>)
    requires
        start <= lines@.len(),
    ensures
        output_views(r@) == spec_listing(views(lines@), start as int),
{
    let mut r: Vec<Output> = Vec::new();
    let mut i: usize = start;
    while i < lines.len()
        invariant
            start <= i <= lines@.len(),
            r@.len() == i - start,
            forall|k: int| 0 <= k < i - start ==> #[trigger] r@[k]@ == (Stream::Stdout, spec_history_line((start + k + 1) as nat, lines@[start + k]@)),
        decreases lines@.len() - i,
    {
        let line = history_line(i + 1, lines[i].as_str());
        r.push(Output { stream: Stream::Stdout, text: line });
        i = i + 1;
    }
    assert(output_views(r@) =~= spec_listing(views(lines@), start as int));
    r
}

fn print_error(msg: String) -> (r: HistoryAction)
    ensures
        r.effect() == HistoryEffect::Print(error_line(msg@)),
{
    let mut v: Vec<Output> = Vec::new();
    v.push(Output { stream: Stream::Stderr, text: msg });
    assert(output_views(v@) =~= error_line(msg@));
    HistoryAction::Print(v)
}

fn print_nothing() -> (r: HistoryAction)
    ensures
        r.effect() == HistoryEffect::Print(Seq::empty()),
{
    let v: Vec<Output> = Vec::new();
    assert(output_views(v@) =~= Seq::empty());
    HistoryAction::Print(v)
}

/// `history [N | -c | -d N | -a FILE | -w FILE | -r FILE]` on the history
/// `h`, whose entries before position `last_flushed` were appended to a file
/// by an earlier `-a`. `-c` empties `h`; every other form leaves it as it is
/// and says what to print, write or read.
pub fn cmd_history(h: &mut FileHistory, args: &[&str], last_flushed: usize) -> (r: HistoryAction)
    ensures
        r.effect() == spec_history(history_entries(*old(h)), str_views(args@), last_flushed as int),
        args@.len() > 0 && args@[0]@ == "-c"@ ==> history_entries(*final(h)) == Seq::<Seq<char>>::empty(),
        !(args@.len() > 0 && args@[0]@ == "-c"@) ==> history_entries(*final(h)) == history_entries(*old(h)),
{
    let ghost entries = history_entries(*h);
    if args.len() == 0 {
        let lines = history_lines(h);
        return HistoryAction::Print(listing(&lines, 0));
    }
    let a = args[0];
    if str_is(a, "-c") {
        match history_clear(h) {
            Ok(()) => HistoryAction::Cleared { flushed: 0 },
            Err(_) => print_error(String::from_str("history: failed to clear history")),
        }
    } else if str_is(a, "-d") {
        if args.len() < 2 {
            print_error(String::from_str("history: -d: option requires an argument"))
        } else {
            let len = history_len(h);
            match parse_usize(args[1]) {
                Some(n) => {
                    if n >= 1 && n <= len {
                        print_error(String::from_str("history: -d requires mutable access (not yet supported)"))
                    } else {
                        print_error(concat3("history: ", args[1], ": invalid option"))
                    }
                },
                None => print_error(concat3("history: ", args[1], ": invalid option")),
            }
        }
    } else if str_is(a, "-a") {
        if args.len() < 2 {
            print_error(String::from_str("history: -a: option requires an argument"))
        } else {
            let lines = history_lines(h);
            if last_flushed < lines.len() {
                let mut tail: Vec<String> = Vec::new();
                let mut i: usize = last_flushed;
                while i < lines.len()
                    invariant
                        last_flushed <= i <= lines@.len(),
                        views(tail@) == views(lines@).subrange(last_flushed as int, i as int),
                    decreases lines@.len() - i,
                {
                    let e = lines[i].clone();
                    proof {
                        assert(e@ == lines@[i as int]@);
                        assert(views(tail@.push(e)) =~= views(tail@).push(e@));
                        assert(views(tail@.push(e)) =~= views(lines@).subrange(last_flushed as int, i + 1));
                    }
                    tail.push(e);
                    i = i + 1;
                }
                assert(views(lines@).subrange(last_flushed as int, lines@.len() as int) =~= entries.skip(last_flushed as int));
                HistoryAction::Append { filename: String::from_str(args[1]), lines: tail, flushed: lines.len() }
            } else {
                print_nothing()
            }
        }
    } else if str_is(a, "-r") {
        if args.len() < 2 {
            print_error(String::from_str("history: -r: option requires an argument"))
        } else {
            HistoryAction::Read { filename: String::from_str(args[1]) }
        }
    } else if str_is(a, "-w") {
        if args.len() < 2 {
            print_error(String::from_str("history: -w: option requires an argument"))
        } else {
            let lines = history_lines(h);
            HistoryAction::Write { filename: String::from_str(args[1]), lines }
        }
    } else {
        match parse_usize(a) {
            Some(n) => {
                let lines = history_lines(h);
                let len = lines.len();
                let start = if n >= len { 0 } else { len - n };
                HistoryAction::Print(listing(&lines, start))
            },
            None => print_error(concat3("history: ", a, ": numeric argument required")),
        }
    }
}

/// The line for a history file that could not be opened or created.
pub fn history_file_error(filename: &str, err: &str) -> (r: String)
    ensures
        r@ == "history: "@ + filename@ + ": "@ + err@,
{
    let mut r = concat3("history: ", filename, ": ");
    r.append(err);
    r
}

/// The line for a history file that could not be read.
pub fn history_read_error(filename: &str) -> (r: String)
    ensures
        r@ == "history: "@ + filename@ + ": cannot read"@,
{
    concat3("history: ", filename, ": cannot read")
}

/// Appending twice in a row appends nothing the second time: once `-a` has
/// appended up to the end, a second `-a` on the same history has nothing
/// left to append.
pub proof fn law_append_twice_appends_nothing(entries: Seq<Seq<char>>, file: Seq<char>, flushed: int)
    requires
        0 <= flushed,
        spec_history(entries, seq!["-a"@, file], flushed) matches HistoryEffect::Append(_, _, f2),
    ensures
        ({
            let f2 = spec_history(entries, seq!["-a"@, file], flushed)->Append_2;
            spec_history(entries, seq!["-a"@, file], f2) == HistoryEffect::Print(Seq::empty())
        }),
{
    reveal_strlit("-a");
    reveal_strlit("-c");
    reveal_strlit("-d");
}

/// `-a` after `-c` appends exactly the entries added since the clear: the
/// clear starts the count of appended entries again from zero.
pub proof fn law_clear_then_append(
    before: Seq<Seq<char>>,
    flushed: int,
    added: Seq<Seq<char>>,
    file: Seq<char>,
)
    requires
        0 <= flushed,
        added.len() >= 1,
    ensures
        spec_history(before, seq!["-c"@], flushed) == HistoryEffect::Cleared(0),
        spec_history(added, seq!["-a"@, file], 0) == HistoryEffect::Append(file, added, added.len() as int),
{
    reveal_strlit("-a");
    reveal_strlit("-c");
    reveal_strlit("-d");
    let args = seq!["-a"@, file];
    assert(args.len() == 2 && args[0] == "-a"@ && args[1] == file);
    assert("-a"@[1] != "-c"@[1] && "-a"@[1] != "-d"@[1]);
    assert(added.skip(0) =~= added);
}

/// `history N` with `N` at least the number of entries lists the same lines
/// as `history` alone.
pub proof fn law_history_n_covers_all(entries: Seq<Seq<char>>, n: Seq<char>, flushed: int)
    requires
        spec_parse_usize(n) matches Some(k) && k >= entries.len(),
    ensures
        spec_history(entries, seq![n], flushed) == spec_history(entries, Seq::empty(), flushed),
{
    reveal_strlit("-c");
    reveal_strlit("-d");
    reveal_strlit("-a");
    reveal_strlit("-r");
    reveal_strlit("-w");
    if n.len() > 0 && n[0] == '-' {
        assert(!is_digit(n[0]));
    }
}

/// After `-a` has appended, what was appended is exactly the entries that the
/// earlier appends had not covered, and together they make up the whole
/// history.
pub proof fn law_append_completes_history(entries: Seq<Seq<char>>, file: Seq<char>, flushed: int)
    requires
        0 <= flushed,
        spec_history(entries, seq!["-a"@, file], flushed) matches HistoryEffect::Append(_, _, _),
    ensures
        ({
            let lines = spec_history(entries, seq!["-a"@, file], flushed)->Append_1;
            entries.take(flushed) + lines == entries
        }),
{
    reveal_strlit("-a");
    reveal_strlit("-c");
    reveal_strlit("-d");
    assert(entries.take(flushed) + entries.skip(flushed) =~= entries);
}

/// `history -w FILE` writes every entry of the history to the file, in
/// order, however many of them were appended before; `history -r FILE`
/// reads the file.
pub proof fn law_write_and_read_whole_history(entries: Seq<Seq<char>>, file: Seq<char>, flushed: int)
    ensures
        spec_history(entries, seq!["-w"@, file], flushed) == HistoryEffect::Write(file, entries),
        spec_history(entries, seq!["-r"@, file], flushed) == HistoryEffect::Read(file),
{
    reveal_strlit("-a");
    reveal_strlit("-c");
    reveal_strlit("-d");
    reveal_strlit("-r");
    reveal_strlit("-w");
    let w = seq!["-w"@, file];
    let r = seq!["-r"@, file];
    assert(w.len() == 2 && w[0] == "-w"@ && w[1] == file);
    assert(r.len() == 2 && r[0] == "-r"@ && r[1] == file);
    assert("-w"@[1] != "-c"@[1] && "-w"@[1] != "-d"@[1] && "-w"@[1] != "-a"@[1] && "-w"@[1] != "-r"@[1]);
    assert("-r"@[1] != "-c"@[1] && "-r"@[1] != "-d"@[1] && "-r"@[1] != "-a"@[1]);
}

/// `history N` lists the last `N` entries (all of them when there are
/// fewer), oldest first, each on a line that ends with the entry itself.
pub proof fn law_history_n_lists_last_n(entries: Seq<Seq<char>>, arg: Seq<char>, flushed: int)
    requires
        spec_parse_usize(arg) is Some,
    ensures
        ({
            let n = spec_parse_usize(arg)->0 as int;
            let m = if n < entries.len() { n } else { entries.len() as int };
            spec_history(entries, seq![arg], flushed) matches HistoryEffect::Print(lines) && lines.len() == m
                && forall|k: int|
                0 <= k < m ==> {
                    let line = #[trigger] lines[k];
                    let e = entries[entries.len() - m + k];
                    &&& line.0 == Stream::Stdout
                    &&& line.1.len() >= e.len()
                    &&& line.1.subrange(line.1.len() - e.len(), line.1.len() as int) == e
                }
        }),
{
    reveal_strlit("-a");
    reveal_strlit("-c");
    reveal_strlit("-d");
    reveal_strlit("-r");
    reveal_strlit("-w");
    if arg.len() > 0 && arg[0] == '-' {
        assert(!is_digit(arg[0]));
    }
    let n = spec_parse_usize(arg)->0 as int;
    let len = entries.len() as int;
    let start = if n >= len { 0 } else { len - n };
    let lines = spec_listing(entries, start);
    assert forall|k: int| 0 <= k < lines.len() implies {
        let line = #[trigger] lines[k];
        let e = entries[start + k];
        line.1.subrange(line.1.len() - e.len(), line.1.len() as int) == e
    } by {
        let e = entries[start + k];
        let p = pad_left(spec_decimal((start + k + 1) as nat), 4) + "  "@;
        assert(lines[k].1 == p + e);
        assert((p + e).subrange(p.len() as int, (p + e).len() as int) =~= e);
    }
}

} // verus!
