use vstd::prelude::*;

use crate::builtins::{builtin_kind, spec_builtin, Builtin};
use crate::exec::command_not_found;
use crate::redirect::{last_of, last_redirect, RedirectPlan, RedirectPlanView, Stream};
use crate::text::{concat2, str_is, views};

verus! {

/// Whether the token `t`, bare when `bare`, separates pipeline stages: a `|`
/// written with no quote and no backslash.
pub open spec fn is_separator(t: Seq<char>, bare: bool) -> bool {
    t == "|"@ && bare
}

/// The stages of a pipeline: the tokens between separating `|` tokens, in
/// order; `f` says for each token whether it is bare. A line without such a
/// `|` is one stage; a `|` at either end or next to another gives an empty
/// stage. A quoted or escaped `|` is an ordinary word.
pub open spec fn spec_stages(t: Seq<Seq<char>>, f: Seq<bool>) -> Seq<Seq<Seq<char>>>
    decreases t.len(),
{
    if t.len() == 0 {
        seq![Seq::empty()]
    } else {
        let r = spec_stages(t.drop_last(), f.drop_last());
        if is_separator(t.last(), f.last()) {
            r.push(Seq::empty())
        } else {
            r.update(r.len() - 1, r.last().push(t.last()))
        }
    }
}

/// The stages as text.
pub open spec fn stage_views(v: Seq<Vec<String>>) -> Seq<Seq<Seq<char>>> {
    v.map_values(|s: Vec<String>| views(s@))
}

proof fn lemma_stages_nonempty(t: Seq<Seq<char>>, f: Seq<bool>)
    ensures
        spec_stages(t, f).len() >= 1,
    decreases t.len(),
{
    if t.len() > 0 {
        lemma_stages_nonempty(t.drop_last(), f.drop_last());
    }
}

/// Split a command line's tokens into pipeline stages at each bare `|`
/// token; `bare` marks, for each token, whether it was written with no quote
/// and no backslash.
pub fn split_pipeline(tokens: &[String], bare: &[bool]) -> (stages: Vec<Vec<String>>)
    requires
        bare@.len() == tokens@.len(),
    ensures
        stage_views(stages@) == spec_stages(views(tokens@), bare@),
{
    let mut stages: Vec<Vec<String>> = Vec::new();
    let mut cur: Vec<String> = Vec::new();
    let mut i: usize = 0;
    assert(views(tokens@).take(0) =~= Seq::<Seq<char>>::empty());
    assert(views(cur@) =~= Seq::<Seq<char>>::empty());
    assert(stage_views(stages@) =~= Seq::<Seq<Seq<char>>>::empty());
    assert(stage_views(stages@).push(views(cur@)) =~= seq![Seq::<Seq<char>>::empty()]);
    while i < tokens.len()
        invariant
            i <= tokens@.len(),
            bare@.len() == tokens@.len(),
            stage_views(stages@).push(views(cur@)) == spec_stages(views(tokens@).take(i as int), bare@.take(i as int)),
        decreases tokens@.len() - i,
    {
        proof {
            let t = views(tokens@).take(i + 1);
            assert(t.drop_last() =~= views(tokens@).take(i as int));
            assert(t.last() == tokens@[i as int]@);
            assert(bare@.take(i + 1).drop_last() =~= bare@.take(i as int));
            assert(bare@.take(i + 1).last() == bare@[i as int]);
            lemma_stages_nonempty(t.drop_last(), bare@.take(i as int));
        }
        if bare[i] && str_is(tokens[i].as_str(), "|") {
            let done = cur;
            cur = Vec::new();
            proof {
                assert(stage_views(stages@.push(done)) =~= stage_views(stages@).push(views(done@)));
                assert(views(cur@) =~= Seq::<Seq<char>>::empty());
            }
            stages.push(done);
        } else {
            let tok = tokens[i].clone();
            proof {
                assert(tok@ == tokens@[i as int]@);
                assert(views(cur@.push(tok)) =~= views(cur@).push(tok@));
                assert(stage_views(stages@).push(views(cur@.push(tok))) =~= stage_views(stages@).push(
                    views(cur@),
                ).update(stages@.len() as int, views(cur@).push(tok@)));
            }
            cur.push(tok);
        }
        i = i + 1;
    }
    assert(views(tokens@).take(tokens@.len() as int) =~= views(tokens@));
    assert(bare@.take(bare@.len() as int) =~= bare@);
    proof {
        assert(stage_views(stages@.push(cur)) =~= stage_views(stages@).push(views(cur@)));
    }
    stages.push(cur);
    stages
}

/// Joining the stages back with `|` between them gives the tokens again: no
/// token is lost, added or moved.
pub proof fn law_stages_rejoin(t: Seq<Seq<char>>, f: Seq<bool>)
    requires
        f.len() == t.len(),
    ensures
        rejoin(spec_stages(t, f)) == t,
    decreases t.len(),
{
    if t.len() > 0 {
        let d = t.drop_last();
        law_stages_rejoin(d, f.drop_last());
        lemma_stages_nonempty(d, f.drop_last());
        let r = spec_stages(d, f.drop_last());
        if is_separator(t.last(), f.last()) {
            assert(r.push(Seq::empty()).drop_last() =~= r);
            assert(rejoin(r) + seq!["|"@] + Seq::empty() =~= t);
        } else {
            let r2 = r.update(r.len() - 1, r.last().push(t.last()));
            lemma_rejoin_last(r, t.last());
            assert(rejoin(r).push(t.last()) =~= t);
            assert(r2 == r.update(r.len() - 1, r.last().push(t.last())));
        }
    }
}

/// A line with no bare `|` is a single stage: quoted and escaped `|` tokens
/// are ordinary words.
pub proof fn law_no_bare_pipe_one_stage(t: Seq<Seq<char>>, f: Seq<bool>)
    requires
        f.len() == t.len(),
        forall|k: int| 0 <= k < t.len() ==> !is_separator(#[trigger] t[k], f[k]),
    ensures
        spec_stages(t, f) == seq![t],
    decreases t.len(),
{
    if t.len() > 0 {
        let d = t.drop_last();
        let g = f.drop_last();
        assert forall|k: int| 0 <= k < d.len() implies !is_separator(#[trigger] d[k], g[k]) by {
            assert(d[k] == t[k] && g[k] == f[k]);
        }
        law_no_bare_pipe_one_stage(d, g);
        assert(!is_separator(t[t.len() - 1], f[f.len() - 1]));
        assert(d.push(t.last()) =~= t);
    } else {
        assert(t =~= Seq::<Seq<char>>::empty());
    }
}

/// Stages joined with `|` tokens between them.
pub open spec fn rejoin(s: Seq<Seq<Seq<char>>>) -> Seq<Seq<char>>
    decreases s.len(),
{
    if s.len() == 0 {
        Seq::empty()
    } else if s.len() == 1 {
        s[0]
    } else {
        rejoin(s.drop_last()) + seq!["|"@] + s.last()
    }
}

proof fn lemma_rejoin_last(s: Seq<Seq<Seq<char>>>, x: Seq<char>)
    requires
        s.len() >= 1,
    ensures
        rejoin(s.update(s.len() - 1, s.last().push(x))) == rejoin(s).push(x),
{
    let u = s.update(s.len() - 1, s.last().push(x));
    if s.len() == 1 {
        assert(u[0] == s[0].push(x));
    } else {
        assert(u.drop_last() =~= s.drop_last());
        assert(u.last() == s.last().push(x));
        assert(rejoin(s.drop_last()) + seq!["|"@] + s.last().push(x) =~= (rejoin(s.drop_last()) + seq!["|"@]
            + s.last()).push(x));
    }
}

/// Where a stage reads its standard input from.
#[derive(PartialEq, Eq, Structural, Clone, Copy, Debug)]
pub enum StdinFrom {
    /// The shell's own standard input.
    Shell,
    /// The pipe from the stage before.
    PreviousStage,
}

/// Where a stage writes its standard output.
#[derive(PartialEq, Eq, Structural, Clone, Copy, Debug)]
pub enum StdoutTo {
    /// The shell's own standard output.
    Shell,
    /// The file of the stage's stdout redirection.
    File,
    /// A pipe to the stage after.
    NextStage,
}

/// What to do with one stage of a pipeline.
#[derive(Debug)]
pub enum StageAction {
    /// Stop the pipeline after writing `message`: to the shell's standard
    /// error when `shell_stderr`, else through the stage's own stderr
    /// redirection.
    Stop { message: String, shell_stderr: bool },
    /// Run a builtin, its standard output going to `stdout`.
    RunBuiltin { builtin: Builtin, stdout: StdoutTo },
    /// Start the external command with these streams; its standard error goes
    /// to the file of its stderr redirection when `stderr_to_file`.
    Spawn { stdin: StdinFrom, stdout: StdoutTo, stderr_to_file: bool },
}

/// `StageAction` as a mathematical value.
pub enum StageActionView {
    Stop(Seq<char>, bool),
    RunBuiltin(Builtin, StdoutTo),
    Spawn(StdinFrom, StdoutTo, bool),
}

impl View for StageAction {
    type V = StageActionView;

    open spec fn view(&self) -> StageActionView {
        match self {
            StageAction::Stop { message, shell_stderr } => StageActionView::Stop(message@, *shell_stderr),
            StageAction::RunBuiltin { builtin, stdout } => StageActionView::RunBuiltin(*builtin, *stdout),
            StageAction::Spawn { stdin, stdout, stderr_to_file } => StageActionView::Spawn(
                *stdin,
                *stdout,
                *stderr_to_file,
            ),
        }
    }
}

/// The message for an empty stage.
pub open spec fn empty_stage_message() -> Seq<char> {
    "shell: syntax error near unexpected token `|'"@
}

/// What stage `index` of `n` does. `plan` is its redirections; `open_error` is
/// the error of the first of its files that could not be opened, if any;
/// `kind` is the builtin its command names; `found` says whether the command
/// was found as an executable; `prev_piped` says whether the stage before
/// left a pipe to read.
///
/// A redirection or syntax error, or an empty stage, stops the pipeline with
/// a message on the shell's standard error. A builtin writes to the next
/// stage unless it is last; the last one writes to its stdout file or to the
/// shell. An external command reads the previous stage's pipe when there is
/// one, writes to its stdout file, else to the next stage unless it is last,
/// and sends its standard error to its stderr file when there is one. An
/// unknown command stops the pipeline with `command not found`.
pub open spec fn spec_stage_action(
    index: int,
    n: int,
    plan: RedirectPlanView,
    open_error: Option<Seq<char>>,
    kind: Option<Builtin>,
    found: bool,
    prev_piped: bool,
) -> StageActionView {
    let is_last = index == n - 1;
    let out_file = last_of(plan.ops, Stream::Stdout) is Some;
    let err_file = last_of(plan.ops, Stream::Stderr) is Some;
    match open_error {
        Some(e) => StageActionView::Stop("shell: "@ + e, true),
        None => match plan.error {
            Some(e) => StageActionView::Stop("shell: "@ + e, true),
            None => {
                if plan.cmd_tokens.len() == 0 {
                    StageActionView::Stop(empty_stage_message(), true)
                } else {
                    match kind {
                        Some(b) => StageActionView::RunBuiltin(
                            b,
                            if !is_last {
                                StdoutTo::NextStage
                            } else if out_file {
                                StdoutTo::File
                            } else {
                                StdoutTo::Shell
                            },
                        ),
                        None => {
                            if found {
                                StageActionView::Spawn(
                                    if prev_piped {
                                        StdinFrom::PreviousStage
                                    } else {
                                        StdinFrom::Shell
                                    },
                                    if out_file {
                                        StdoutTo::File
                                    } else if !is_last {
                                        StdoutTo::NextStage
                                    } else {
                                        StdoutTo::Shell
                                    },
                                    err_file,
                                )
                            } else {
                                StageActionView::Stop(plan.cmd_tokens[0] + ": command not found"@, false)
                            }
                        },
                    }
                }
            },
        },
    }
}

/// The option of text behind an optional string slice.
pub open spec fn opt_text(e: Option<&str>) -> Option<Seq<char>> {
    match e {
        Some(s) => Some(s@),
        None => None,
    }
}

/// What stage `index` of `n_stages` does; see `spec_stage_action`.
pub fn stage_action(
    index: usize,
    n_stages: usize,
    plan: &RedirectPlan,
    open_error: Option<&str>,
    found: bool,
    prev_piped: bool,
) -> (r: StageAction)
    requires
        index < n_stages,
    ensures
        r@ == spec_stage_action(
            index as int,
            n_stages as int,
            plan@,
            opt_text(open_error),
            spec_builtin(plan.cmd_tokens@[0]@),
            found,
            prev_piped,
        ),
{
    let is_last = index == n_stages - 1;
    let out_file = last_redirect(&plan.ops, Stream::Stdout).is_some();
    let err_file = last_redirect(&plan.ops, Stream::Stderr).is_some();
    if let Some(e) = open_error {
        return StageAction::Stop { message: concat2("shell: ", e), shell_stderr: true };
    }
    if let Some(e) = &plan.error {
        return StageAction::Stop { message: concat2("shell: ", e.as_str()), shell_stderr: true };
    }
    if plan.cmd_tokens.len() == 0 {
        return StageAction::Stop {
            message: String::from_str("shell: syntax error near unexpected token `|'"),
            shell_stderr: true,
        };
    }
    let command = plan.cmd_tokens[0].as_str();
    match builtin_kind(command) {
        Some(b) => {
            let stdout = if !is_last {
                StdoutTo::NextStage
            } else if out_file {
                StdoutTo::File
            } else {
                StdoutTo::Shell
            };
            StageAction::RunBuiltin { builtin: b, stdout }
        },
        None => {
            if found {
                let stdin = if prev_piped {
                    StdinFrom::PreviousStage
                } else {
                    StdinFrom::Shell
                };
                let stdout = if out_file {
                    StdoutTo::File
                } else if !is_last {
                    StdoutTo::NextStage
                } else {
                    StdoutTo::Shell
                };
                StageAction::Spawn { stdin, stdout, stderr_to_file: err_file }
            } else {
                StageAction::Stop { message: command_not_found(command), shell_stderr: false }
            }
        },
    }
}

/// Whether a stage leaves a pipe for the stage after it to read: it runs and
/// writes to the next stage.
pub open spec fn leaves_pipe(a: StageActionView) -> bool {
    match a {
        StageActionView::RunBuiltin(_, out) => out == StdoutTo::NextStage,
        StageActionView::Spawn(_, out, _) => out == StdoutTo::NextStage,
        StageActionView::Stop(_, _) => false,
    }
}

/// Whether a stage leaves a pipe for the stage after it to read.
pub fn feeds_next(a: &StageAction) -> (b: bool)
    ensures
        b == leaves_pipe(a@),
{
    match a {
        StageAction::RunBuiltin { stdout, .. } => *stdout == StdoutTo::NextStage,
        StageAction::Spawn { stdout, .. } => *stdout == StdoutTo::NextStage,
        StageAction::Stop { .. } => false,
    }
}

/// What stage `index` of `n_stages` does, given what the stage before it did
/// (`None` for the first stage): it reads the previous stage's pipe exactly
/// when that stage left one.
pub fn stage_in_pipeline(
    index: usize,
    n_stages: usize,
    plan: &RedirectPlan,
    open_error: Option<&str>,
    found: bool,
    previous: Option<&StageAction>,
) -> (r: StageAction)
    requires
        index < n_stages,
    ensures
        r@ == spec_stage_action(
            index as int,
            n_stages as int,
            plan@,
            opt_text(open_error),
            spec_builtin(plan.cmd_tokens@[0]@),
            found,
            match previous {
                Some(p) => leaves_pipe(p@),
                None => false,
            },
        ),
{
    let prev_piped = match previous {
        Some(p) => feeds_next(p),
        None => false,
    };
    stage_action(index, n_stages, plan, open_error, found, prev_piped)
}

/// What is known of a stage before it is run: its redirections, the error of
/// opening their files if any, and whether its command was found as an
/// executable.
pub type StageInput = (RedirectPlanView, Option<Seq<char>>, bool);

/// The actions of the stages of a pipeline of `n` stages, for the stages
/// `ins` in order, each stage told whether the one before left a pipe.
pub open spec fn spec_pipeline(n: int, ins: Seq<StageInput>) -> Seq<StageActionView>
    decreases ins.len(),
{
    if ins.len() == 0 {
        Seq::empty()
    } else {
        let prev = spec_pipeline(n, ins.drop_last());
        let x = ins.last();
        let piped = prev.len() > 0 && leaves_pipe(prev.last());
        prev.push(
            spec_stage_action(
                ins.len() - 1,
                n,
                x.0,
                x.1,
                spec_builtin(x.0.cmd_tokens[0]),
                x.2,
                piped,
            ),
        )
    }
}

proof fn lemma_pipeline_len(n: int, ins: Seq<StageInput>)
    ensures
        spec_pipeline(n, ins).len() == ins.len(),
    decreases ins.len(),
{
    if ins.len() > 0 {
        lemma_pipeline_len(n, ins.drop_last());
    }
}

/// The stages are wired together: the first stage never reads from a
/// previous one, and an external command reads from the stage before it
/// exactly when that stage writes to the next stage.
pub proof fn law_stages_wired(n: int, ins: Seq<StageInput>)
    requires
        ins.len() <= n,
    ensures
        ({
            let a = spec_pipeline(n, ins);
            &&& a.len() == ins.len()
            &&& ins.len() > 0 ==> !(a[0] matches StageActionView::Spawn(StdinFrom::PreviousStage, _, _))
            &&& forall|i: int|
                0 <= i < ins.len() - 1 ==> (#[trigger] a[i + 1] matches StageActionView::Spawn(input, _, _) ==> (
                input == StdinFrom::PreviousStage <==> leaves_pipe(a[i])))
        }),
    decreases ins.len(),
{
    lemma_pipeline_len(n, ins);
    if ins.len() > 0 {
        let d = ins.drop_last();
        law_stages_wired(n, d);
        lemma_pipeline_len(n, d);
        let prev = spec_pipeline(n, d);
        let a = spec_pipeline(n, ins);
        assert forall|i: int| 0 <= i < ins.len() - 1 implies (#[trigger] a[i + 1] matches StageActionView::Spawn(
            input,
            _,
            _,
        ) ==> (input == StdinFrom::PreviousStage <==> leaves_pipe(a[i]))) by {
            assert(a[i] == prev[i]);
            if i + 1 < ins.len() - 1 {
                assert(a[i + 1] == prev[i + 1]);
            } else {
                assert(prev.last() == prev[i]);
            }
        }
        if ins.len() > 1 {
            assert(a[0] == prev[0]);
        }
    }
}

/// Only the last stage, and only when its standard output is not redirected,
/// writes to the shell's standard output.
pub proof fn law_only_last_stage_writes_to_shell(
    index: int,
    n: int,
    plan: RedirectPlanView,
    open_error: Option<Seq<char>>,
    kind: Option<Builtin>,
    found: bool,
    prev_piped: bool,
)
    requires
        0 <= index < n,
    ensures
        ({
            let a = spec_stage_action(index, n, plan, open_error, kind, found, prev_piped);
            (a matches StageActionView::RunBuiltin(_, StdoutTo::Shell) || a matches StageActionView::Spawn(
                _,
                StdoutTo::Shell,
                _,
            )) ==> index == n - 1 && last_of(plan.ops, Stream::Stdout) is None
        }),
{
}

/// A stage before the last that runs sends its output on to the next stage,
/// unless it is an external command with its standard output redirected to a
/// file; and a stage reads from the one before only when that one left a pipe.
pub proof fn law_inner_stages_pipe_on(
    index: int,
    n: int,
    plan: RedirectPlanView,
    open_error: Option<Seq<char>>,
    kind: Option<Builtin>,
    found: bool,
    prev_piped: bool,
)
    requires
        0 <= index < n - 1,
    ensures
        ({
            let a = spec_stage_action(index, n, plan, open_error, kind, found, prev_piped);
            &&& a matches StageActionView::RunBuiltin(_, out) ==> out == StdoutTo::NextStage
            &&& a matches StageActionView::Spawn(_, out, _) ==> (out == StdoutTo::NextStage <==> last_of(
                plan.ops,
                Stream::Stdout,
            ) is None)
            &&& a matches StageActionView::Spawn(input, _, _) ==> (input == StdinFrom::PreviousStage
                <==> prev_piped)
        }),
{
}

/// A stage whose command names a builtin, with no redirection or syntax
/// error, runs that builtin, whether or not an executable of the same name is
/// on `$PATH` and wherever its output goes.
pub proof fn law_builtin_stage_runs_builtin(
    index: int,
    n: int,
    plan: RedirectPlanView,
    kind: Option<Builtin>,
    found: bool,
    prev_piped: bool,
)
    requires
        0 <= index < n,
        plan.error is None,
        plan.cmd_tokens.len() > 0,
        kind is Some,
    ensures
        spec_stage_action(index, n, plan, None, kind, found, prev_piped) matches StageActionView::RunBuiltin(
            b,
            _,
        ) && b == kind->0,
{
}

/// A stage whose command is not a builtin, with no redirection or syntax
/// error, starts the executable when it was found, and otherwise stops the
/// pipeline with `NAME: command not found`, sent through the stage's own
/// stderr redirection.
pub proof fn law_external_stage(
    index: int,
    n: int,
    plan: RedirectPlanView,
    found: bool,
    prev_piped: bool,
)
    requires
        0 <= index < n,
        plan.error is None,
        plan.cmd_tokens.len() > 0,
    ensures
        found ==> spec_stage_action(index, n, plan, None, None, found, prev_piped) is Spawn,
        !found ==> spec_stage_action(index, n, plan, None, None, found, prev_piped) == StageActionView::Stop(
            plan.cmd_tokens[0] + ": command not found"@,
            false,
        ),
{
}

/// A file that could not be opened, or a syntax error, stops the pipeline at
/// that stage with `shell: ` and the error on the shell's standard error,
/// whatever the stage's command is.
pub proof fn law_redirect_errors_stop(
    index: int,
    n: int,
    plan: RedirectPlanView,
    open_error: Option<Seq<char>>,
    kind: Option<Builtin>,
    found: bool,
    prev_piped: bool,
)
    requires
        0 <= index < n,
    ensures
        open_error matches Some(e) ==> spec_stage_action(index, n, plan, open_error, kind, found, prev_piped)
            == StageActionView::Stop("shell: "@ + e, true),
        open_error is None && plan.error is Some ==> spec_stage_action(index, n, plan, open_error, kind, found, prev_piped)
            == StageActionView::Stop("shell: "@ + plan.error->0, true),
{
}

} // verus!
