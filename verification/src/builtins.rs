use vstd::prelude::*;

use crate::number::{parse_i32, spec_parse_i32};
use crate::redirect::Stream;
use crate::text::{concat2, concat3, join_words, str_is, str_views, views};
use crate::tokenizer::{law_tokenize_joined_words, plain_word, spec_tokenize};

verus! {

/// A line that a builtin writes, and the stream it goes to.
#[derive(Debug)]
pub struct Output {
    pub stream: Stream,
    pub text: String,
}

impl View for Output {
    type V = (Stream, Seq<char>);

    open spec fn view(&self) -> (Stream, Seq<char>) {
        (self.stream, self.text@)
    }
}

/// The views of a sequence of output lines.
pub open spec fn output_views(v: Seq<Output>) -> Seq<(Stream, Seq<char>)> {
    v.map_values(|o: Output| o@)
}

/// The commands that the shell runs itself.
#[derive(PartialEq, Eq, Structural, Clone, Copy, Debug)]
pub enum Builtin {
    Exit,
    Echo,
    Type,
    Pwd,
    Cd,
    History,
}

/// The names of the builtins, in the order in which completion offers them.
pub open spec fn spec_builtin_names() -> Seq<Seq<char>> {
    seq!["exit"@, "echo"@, "type"@, "pwd"@, "cd"@, "history"@]
}

/// The builtin that `name` names, if any.
pub open spec fn spec_builtin(name: Seq<char>) -> Option<Builtin> {
    if name == "exit"@ {
        Some(Builtin::Exit)
    } else if name == "echo"@ {
        Some(Builtin::Echo)
    } else if name == "type"@ {
        Some(Builtin::Type)
    } else if name == "pwd"@ {
        Some(Builtin::Pwd)
    } else if name == "cd"@ {
        Some(Builtin::Cd)
    } else if name == "history"@ {
        Some(Builtin::History)
    } else {
        None
    }
}

/// The names of the builtins: `exit`, `echo`, `type`, `pwd`, `cd`, `history`.
pub fn builtin_names() -> (r: Vec<String>)
    ensures
        views(r@) == spec_builtin_names(),
{
    let mut r: Vec<String> = Vec::new();
    r.push(String::from_str("exit"));
    r.push(String::from_str("echo"));
    r.push(String::from_str("type"));
    r.push(String::from_str("pwd"));
    r.push(String::from_str("cd"));
    r.push(String::from_str("history"));
    assert(views(r@) =~= spec_builtin_names());
    r
}

/// The builtin that `name` names, if any.
pub fn builtin_kind(name: &str) -> (r: Option<Builtin>)
    ensures
        r == spec_builtin(name@),
{
    if str_is(name, "exit") {
        Some(Builtin::Exit)
    } else if str_is(name, "echo") {
        Some(Builtin::Echo)
    } else if str_is(name, "type") {
        Some(Builtin::Type)
    } else if str_is(name, "pwd") {
        Some(Builtin::Pwd)
    } else if str_is(name, "cd") {
        Some(Builtin::Cd)
    } else if str_is(name, "history") {
        Some(Builtin::History)
    } else {
        None
    }
}

/// Whether `name` is one of the builtins.
pub fn is_builtin(name: &str) -> (b: bool)
    ensures
        b == spec_builtin(name@).is_some(),
        b == spec_builtin_names().contains(name@),
{
    proof {
        lemma_builtin_names_are_builtins(name@);
    }
    builtin_kind(name).is_some()
}

/// A name is among the builtin names exactly when it names a builtin.
pub proof fn lemma_builtin_names_are_builtins(name: Seq<char>)
    ensures
        spec_builtin(name).is_some() == spec_builtin_names().contains(name),
{
    let n = spec_builtin_names();
    if spec_builtin(name).is_some() {
        if name == "exit"@ {
            assert(n[0] == name);
        } else if name == "echo"@ {
            assert(n[1] == name);
        } else if name == "type"@ {
            assert(n[2] == name);
        } else if name == "pwd"@ {
            assert(n[3] == name);
        } else if name == "cd"@ {
            assert(n[4] == name);
        } else {
            assert(n[5] == name);
        }
    }
    if n.contains(name) {
        let k = choose|k: int| 0 <= k < n.len() && n[k] == name;
        assert(k == 0 || k == 1 || k == 2 || k == 3 || k == 4 || k == 5);
    }
}

/// The message for a non-numeric argument of `exit`.
pub open spec fn exit_error_message(arg: Seq<char>) -> Seq<char> {
    "exit: "@ + arg + ": numeric argument required"@
}

/// `exit [code]`: the status to exit with (0 when no argument is given), or
/// the error line when the argument is not an `i32`, in which case the shell
/// goes on.
pub fn exit_status(args: &[&str]) -> (r: Result<i32, String>)
    ensures
        args@.len() == 0 ==> r == Ok::<i32, String>(0),
        args@.len() > 0 ==> match spec_parse_i32(args@[0]@) {
            Some(code) => r == Ok::<i32, String>(code),
            None => (r matches Err(e) && e@ == exit_error_message(args@[0]@)),
        },
{
    if args.len() == 0 {
        Ok(0)
    } else {
        match parse_i32(args[0]) {
            Some(code) => Ok(code),
            None => Err(concat3("exit: ", args[0], ": numeric argument required")),
        }
    }
}

/// `echo args...`: the arguments joined by single spaces.
pub fn echo_line(args: &[&str]) -> (r: String)
    ensures
        r@ == join_words(str_views(args@)),
{
    let mut r = String::new();
    let mut i: usize = 0;
    while i < args.len()
        invariant
            i <= args@.len(),
            r@ == join_words(str_views(args@.take(i as int))),
        decreases args@.len() - i,
    {
        proof {
            assert(str_views(args@.take(i + 1)).drop_last() =~= str_views(args@.take(i as int)));
            assert(str_views(args@.take(i + 1)).last() == args@[i as int]@);
            reveal_strlit(" ");
        }
        if i > 0 {
            r.append(" ");
        }
        r.append(args[i]);
        proof {
            if i == 0 {
                assert(r@ =~= str_views(args@.take(1))[0]);
            }
        }
        i = i + 1;
    }
    assert(args@.take(args@.len() as int) =~= args@);
    r
}

/// What `echo` prints for plain words, read back as a command line, gives
/// the same words.
pub proof fn law_echo_retokenizes(args: Seq<Seq<char>>)
    requires
        forall|k: int| 0 <= k < args.len() ==> plain_word(#[trigger] args[k]) && args[k].len() > 0,
    ensures
        spec_tokenize(join_words(args)) == args,
{
    law_tokenize_joined_words(args);
}

/// What `type` does next: report at once, or look the name up on `$PATH`.
pub enum TypeStep {
    Report(Output),
    Lookup(String),
}

/// The message for `type` without an argument.
pub open spec fn type_missing_message() -> Seq<char> {
    "type: missing argument"@
}

/// `type name`: a builtin is reported at once, any other name must be looked
/// up; with no argument, an error line.
pub fn type_step(args: &[&str]) -> (r: TypeStep)
    ensures
        args@.len() == 0 ==> (r matches TypeStep::Report(o) && o@ == (Stream::Stderr, type_missing_message())),
        args@.len() > 0 && spec_builtin(args@[0]@).is_some() ==> (r matches TypeStep::Report(o)
            && o@ == (Stream::Stdout, args@[0]@ + " is a shell builtin"@)),
        args@.len() > 0 && spec_builtin(args@[0]@).is_none() ==> (r matches TypeStep::Lookup(n) && n@
            == args@[0]@),
{
    if args.len() == 0 {
        TypeStep::Report(Output { stream: Stream::Stderr, text: String::from_str("type: missing argument") })
    } else if is_builtin(args[0]) {
        TypeStep::Report(Output { stream: Stream::Stdout, text: concat2(args[0], " is a shell builtin") })
    } else {
        TypeStep::Lookup(String::from_str(args[0]))
    }
}

/// The line that `type` prints for a name that is not a builtin, given where
/// the search for an executable found it, if anywhere.
pub fn type_report(name: &str, found: Option<&str>) -> (r: String)
    ensures
        found matches Some(p) ==> r@ == name@ + " is "@ + p@,
        found is None ==> r@ == name@ + ": not found"@,
{
    match found {
        Some(p) => concat3(name, " is ", p),
        None => concat2(name, ": not found"),
    }
}

/// `pwd`: the working directory, or the error that reading it gave.
pub fn pwd_report(cwd: Result<&str, &str>) -> (r: Output)
    ensures
        cwd matches Ok(p) ==> r@ == (Stream::Stdout, p@),
        cwd matches Err(e) ==> r@ == (Stream::Stderr, "pwd: "@ + e@),
{
    match cwd {
        Ok(p) => Output { stream: Stream::Stdout, text: String::from_str(p) },
        Err(e) => Output { stream: Stream::Stderr, text: concat2("pwd: ", e) },
    }
}

/// The message for `cd` with no argument and no `$HOME`.
pub open spec fn cd_home_message() -> Seq<char> {
    "cd: HOME not set"@
}

/// Where `cd` goes: its argument, else `$HOME`; with neither, the error line.
pub fn cd_target(args: &[&str], home: Option<&str>) -> (r: Result<String, String>)
    ensures
        args@.len() > 0 ==> (r matches Ok(t) && t@ == args@[0]@),
        args@.len() == 0 && home is Some ==> (r matches Ok(t) && t@ == home->0@),
        args@.len() == 0 && home is None ==> (r matches Err(e) && e@ == cd_home_message()),
{
    if args.len() > 0 {
        Ok(String::from_str(args[0]))
    } else {
        match home {
            Some(h) => Ok(String::from_str(h)),
            None => Err(String::from_str("cd: HOME not set")),
        }
    }
}

/// The line for a `cd` that failed: `cd: ` and the reason.
pub fn cd_error(reason: &str) -> (r: String)
    ensures
        r@ == "cd: "@ + reason@,
{
    concat2("cd: ", reason)
}

/// The line for a `cd` whose change of directory failed.
pub fn cd_change_error(target: &str, err: &str) -> (r: String)
    ensures
        r@ == "cd: "@ + target@ + ": "@ + err@,
{
    let mut r = concat3("cd: ", target, ": ");
    r.append(err);
    r
}

/// Each builtin name names its own builtin, and no other name names one:
/// `exit`, `echo`, `type`, `pwd`, `cd` and `history` run exit, echo, type,
/// pwd, cd and history.
pub proof fn law_builtin_names_map(name: Seq<char>)
    ensures
        spec_builtin("exit"@) == Some(Builtin::Exit),
        spec_builtin("echo"@) == Some(Builtin::Echo),
        spec_builtin("type"@) == Some(Builtin::Type),
        spec_builtin("pwd"@) == Some(Builtin::Pwd),
        spec_builtin("cd"@) == Some(Builtin::Cd),
        spec_builtin("history"@) == Some(Builtin::History),
        spec_builtin(name) == Some(Builtin::Exit) ==> name == "exit"@,
        spec_builtin(name) == Some(Builtin::Echo) ==> name == "echo"@,
        spec_builtin(name) == Some(Builtin::Type) ==> name == "type"@,
        spec_builtin(name) == Some(Builtin::Pwd) ==> name == "pwd"@,
        spec_builtin(name) == Some(Builtin::Cd) ==> name == "cd"@,
        spec_builtin(name) == Some(Builtin::History) ==> name == "history"@,
        spec_builtin(name).is_some() ==> (name == "exit"@ || name == "echo"@ || name == "type"@ || name
            == "pwd"@ || name == "cd"@ || name == "history"@),
{
    reveal_strlit("exit");
    reveal_strlit("echo");
    reveal_strlit("type");
    reveal_strlit("pwd");
    reveal_strlit("cd");
    reveal_strlit("history");
    assert("echo"@[1] != "exit"@[1]);
    assert("type"@.len() == 4 && "type"@[0] != "exit"@[0] && "type"@[0] != "echo"@[0]);
    assert("pwd"@.len() != 4);
    assert("cd"@.len() != 4 && "cd"@.len() != 3);
    assert("history"@.len() == 7);
}

} // verus!
