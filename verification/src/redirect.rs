use vstd::prelude::*;

use crate::text::{str_is, views};

verus! {

/// The output stream that a redirection sends to a file.
#[derive(PartialEq, Eq, Structural, Clone, Copy, Debug)]
pub enum Stream {
    Stdout,
    Stderr,
}

/// How a redirection opens its file.
#[derive(PartialEq, Eq, Structural, Clone, Copy, Debug)]
pub enum OpenMode {
    /// Create the file, or empty it if it exists (`>`).
    Truncate,
    /// Create the file if needed and write at its end (`>>`).
    Append,
}

/// One redirection: a stream, how its file is opened, and the file's name.
#[derive(Debug)]
pub struct RedirectOp {
    pub stream: Stream,
    pub mode: OpenMode,
    pub filename: String,
}

impl View for RedirectOp {
    type V = (Stream, OpenMode, Seq<char>);

    open spec fn view(&self) -> (Stream, OpenMode, Seq<char>) {
        (self.stream, self.mode, self.filename@)
    }
}

/// What the redirection operators of a command line ask for: the tokens that
/// remain for the command, the redirections in the order in which they were
/// written (each one opens its file, and a later one for the same stream
/// replaces an earlier one), and the syntax error when an operator ends the
/// line with no filename after it.
pub struct RedirectPlan {
    pub cmd_tokens: Vec<String>,
    pub ops: Vec<RedirectOp>,
    pub error: Option<String>,
}

/// `RedirectPlan` as a mathematical value.
pub struct RedirectPlanView {
    pub cmd_tokens: Seq<Seq<char>>,
    pub ops: Seq<(Stream, OpenMode, Seq<char>)>,
    pub error: Option<Seq<char>>,
}

impl View for RedirectPlan {
    type V = RedirectPlanView;

    open spec fn view(&self) -> RedirectPlanView {
        RedirectPlanView {
            cmd_tokens: views(self.cmd_tokens@),
            ops: op_views(self.ops@),
            error: match self.error {
                Some(e) => Some(e@),
                None => None,
            },
        }
    }
}

/// The position of the last redirection of `stream`: the one whose file the
/// stream ends up writing to, a later redirection replacing an earlier one.
pub open spec fn last_of(ops: Seq<(Stream, OpenMode, Seq<char>)>, stream: Stream) -> Option<int>
    decreases ops.len(),
{
    if ops.len() == 0 {
        None
    } else if ops.last().0 == stream {
        Some(ops.len() - 1)
    } else {
        last_of(ops.drop_last(), stream)
    }
}

/// The redirection of `stream` that takes effect: the last one written.
pub fn last_redirect(ops: &Vec<RedirectOp>, stream: Stream) -> (r: Option<usize>)
    ensures
        match r {
            Some(i) => last_of(op_views(ops@), stream) == Some(i as int),
            None => last_of(op_views(ops@), stream) is None,
        },
{
    let mut i: usize = ops.len();
    assert(op_views(ops@).take(i as int) =~= op_views(ops@));
    while i > 0
        invariant
            i <= ops@.len(),
            last_of(op_views(ops@), stream) == last_of(op_views(ops@).take(i as int), stream),
        decreases i,
    {
        proof {
            let t = op_views(ops@).take(i as int);
            assert(t.drop_last() =~= op_views(ops@).take(i - 1));
            assert(t.last() == ops@[i - 1]@);
        }
        if ops[i - 1].stream == stream {
            return Some(i - 1);
        }
        i = i - 1;
    }
    None
}

/// The views of a sequence of redirections.
pub open spec fn op_views(v: Seq<RedirectOp>) -> Seq<(Stream, OpenMode, Seq<char>)> {
    v.map_values(|o: RedirectOp| o@)
}

/// The message for an operator with no filename after it.
pub open spec fn missing_filename_message() -> Seq<char> {
    "syntax error: expected filename after redirection"@
}

/// The redirection operator that `t` is, if any. `>` and `1>` send stdout to
/// a file, `2>` stderr; with `appends`, `>>`, `1>>` and `2>>` do the same in
/// append mode, and without it they are ordinary words.
pub open spec fn spec_operator(t: Seq<char>, appends: bool) -> Option<(Stream, OpenMode)> {
    if t == ">"@ || t == "1>"@ {
        Some((Stream::Stdout, OpenMode::Truncate))
    } else if t == "2>"@ {
        Some((Stream::Stderr, OpenMode::Truncate))
    } else if appends && (t == ">>"@ || t == "1>>"@) {
        Some((Stream::Stdout, OpenMode::Append))
    } else if appends && t == "2>>"@ {
        Some((Stream::Stderr, OpenMode::Append))
    } else {
        None
    }
}

/// The command tokens, the redirections and whether an operator was left
/// without a filename, for the tokens `t` read from left to right.
pub open spec fn spec_scan(t: Seq<Seq<char>>, appends: bool) -> (
    Seq<Seq<char>>,
    Seq<(Stream, OpenMode, Seq<char>)>,
    bool,
)
    decreases t.len(),
{
    if t.len() == 0 {
        (Seq::empty(), Seq::empty(), false)
    } else {
        match spec_operator(t[0], appends) {
            Some((stream, mode)) => {
                if t.len() < 2 {
                    (Seq::empty(), Seq::empty(), true)
                } else {
                    let r = spec_scan(t.skip(2), appends);
                    (r.0, seq![(stream, mode, t[1])] + r.1, r.2)
                }
            },
            None => {
                let r = spec_scan(t.skip(1), appends);
                (seq![t[0]] + r.0, r.1, r.2)
            },
        }
    }
}

/// Whether a plan is what `spec_scan` gives for `tokens`.
pub open spec fn plan_matches(plan: RedirectPlan, tokens: Seq<Seq<char>>, appends: bool) -> bool {
    let r = spec_scan(tokens, appends);
    &&& views(plan.cmd_tokens@) == r.0
    &&& op_views(plan.ops@) == r.1
    &&& plan.error.is_some() == r.2
    &&& (plan.error matches Some(e) ==> e@ == missing_filename_message())
}

fn operator(t: &str, appends: bool) -> (r: Option<(Stream, OpenMode)>)
    ensures
        r == spec_operator(t@, appends),
{
    if str_is(t, ">") || str_is(t, "1>") {
        Some((Stream::Stdout, OpenMode::Truncate))
    } else if str_is(t, "2>") {
        Some((Stream::Stderr, OpenMode::Truncate))
    } else if appends && (str_is(t, ">>") || str_is(t, "1>>")) {
        Some((Stream::Stdout, OpenMode::Append))
    } else if appends && str_is(t, "2>>") {
        Some((Stream::Stderr, OpenMode::Append))
    } else {
        None
    }
}

/// The token after position `pos`, which names the file of the operator at
/// `pos`, or the syntax error when there is none.
pub fn next_filename<'a>(tokens: &'a [String], pos: usize) -> (r: Result<&'a str, String>)
    requires
        pos < usize::MAX,
    ensures
        pos + 1 < tokens@.len() ==> (r matches Ok(f) && f@ == tokens@[pos + 1]@),
        pos + 1 >= tokens@.len() ==> (r matches Err(e) && e@ == missing_filename_message()),
{
    if pos + 1 < tokens.len() {
        Ok(tokens[pos + 1].as_str())
    } else {
        Err(String::from_str("syntax error: expected filename after redirection"))
    }
}

fn scan(tokens: &[String], appends: bool) -> (plan: RedirectPlan)
    ensures
        plan_matches(plan, views(tokens@), appends),
{
    let ghost t = views(tokens@);
    let mut cmd_tokens: Vec<String> = Vec::new();
    let mut ops: Vec<RedirectOp> = Vec::new();
    let mut error: Option<String> = None;
    let mut i: usize = 0;
    assert(t.skip(0) =~= t);
    while i < tokens.len()
        invariant
            i <= tokens@.len(),
            t == views(tokens@),
            error.is_none(),
            ({
                let r = spec_scan(t.skip(i as int), appends);
                let all = spec_scan(t, appends);
                &&& all.0 == views(cmd_tokens@) + r.0
                &&& all.1 == op_views(ops@) + r.1
                &&& all.2 == r.2
            }),
        decreases tokens@.len() - i,
    {
        let ghost rest = t.skip(i as int);
        assert(rest[0] == tokens@[i as int]@);
        match operator(tokens[i].as_str(), appends) {
            Some((stream, mode)) => {
                match next_filename(tokens, i) {
                    Ok(filename) => {
                        assert(rest[1] == tokens@[i + 1]@);
                        assert(rest.skip(2) =~= t.skip(i + 2));
                        let op = RedirectOp { stream, mode, filename: String::from_str(filename) };
                        proof {
                            let r2 = spec_scan(t.skip(i + 2), appends);
                            assert(op_views(ops@.push(op)) + r2.1 =~= op_views(ops@) + (seq![op@] + r2.1));
                        }
                        ops.push(op);
                        i = i + 2;
                    },
                    Err(e) => {
                        proof {
                            assert(views(cmd_tokens@) + Seq::<Seq<char>>::empty() =~= views(cmd_tokens@));
                            assert(op_views(ops@) + Seq::empty() =~= op_views(ops@));
                        }
                        return RedirectPlan { cmd_tokens, ops, error: Some(e) };
                    },
                }
            },
            None => {
                assert(rest.skip(1) =~= t.skip(i + 1));
                let tok = tokens[i].clone();
                proof {
                    let r2 = spec_scan(t.skip(i + 1), appends);
                    assert(views(cmd_tokens@.push(tok)) + r2.0 =~= views(cmd_tokens@) + (seq![rest[0]] + r2.0));
                }
                cmd_tokens.push(tok);
                i = i + 1;
            },
        }
    }
    proof {
        assert(t.skip(i as int) =~= Seq::<Seq<char>>::empty());
        assert(views(cmd_tokens@) + Seq::<Seq<char>>::empty() =~= views(cmd_tokens@));
        assert(op_views(ops@) + Seq::empty() =~= op_views(ops@));
    }
    RedirectPlan { cmd_tokens, ops, error }
}

/// Parse redirection operators from tokens: `>`, `1>`, `>>`, `1>>`, `2>`,
/// `2>>`. The operator and the filename after it leave the command's tokens.
pub fn parse(tokens: &[String]) -> (plan: RedirectPlan)
    ensures
        plan_matches(plan, views(tokens@), true),
{
    scan(tokens, true)
}

/// Scan tokens for `>`, `1>` and `2>` only, with the filename after each;
/// `>>` and its kin are ordinary words here.
pub fn parse_redirections(tokens: &[String]) -> (plan: RedirectPlan)
    ensures
        plan_matches(plan, views(tokens@), false),
{
    scan(tokens, false)
}

/// Every token ends up in exactly one place: among the command's tokens, as
/// an operator or a filename of a redirection, or as the operator left
/// without a filename.
pub proof fn law_scan_accounts_for_every_token(t: Seq<Seq<char>>, appends: bool)
    ensures
        ({
            let r = spec_scan(t, appends);
            r.0.len() + 2 * r.1.len() + (if r.2 { 1int } else { 0int }) == t.len()
        }),
    decreases t.len(),
{
    if t.len() > 0 {
        match spec_operator(t[0], appends) {
            Some(_) => {
                if t.len() >= 2 {
                    law_scan_accounts_for_every_token(t.skip(2), appends);
                }
            },
            None => {
                law_scan_accounts_for_every_token(t.skip(1), appends);
            },
        }
    }
}

/// A line with no redirection operator is left as it is.
pub proof fn law_no_operator_no_redirection(t: Seq<Seq<char>>, appends: bool)
    requires
        forall|k: int| 0 <= k < t.len() ==> spec_operator(#[trigger] t[k], appends).is_none(),
    ensures
        spec_scan(t, appends) == (t, Seq::<(Stream, OpenMode, Seq<char>)>::empty(), false),
    decreases t.len(),
{
    if t.len() > 0 {
        let rest = t.skip(1);
        assert forall|k: int| 0 <= k < rest.len() implies spec_operator(#[trigger] rest[k], appends).is_none() by {
            assert(rest[k] == t[k + 1]);
        }
        law_no_operator_no_redirection(rest, appends);
        assert(seq![t[0]] + rest =~= t);
        assert(spec_operator(t[0], appends).is_none());
    }
}

} // verus!
