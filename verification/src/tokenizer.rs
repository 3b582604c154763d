use vstd::prelude::*;

use crate::text::{chars_of, join_words, push_char, views};

verus! {

/// Where the tokenizer stands between two characters.
#[derive(PartialEq, Eq, Structural, Clone, Copy)]
pub enum Mode {
    /// Outside any quote.
    Plain,
    /// Inside single quotes: everything is literal up to the closing quote.
    Single,
    /// Inside double quotes.
    Double,
    /// Inside double quotes, right after a backslash.
    DoubleEscape,
    /// Outside quotes, right after a backslash.
    Escape,
}

/// The tokenizer's state as a mathematical value: the finished tokens, the
/// token being built, whether a token has been started, the mode, whether a
/// quote or a backslash went into the token being built, and for each
/// finished token whether it is bare (none went into it).
pub struct TokState {
    pub tokens: Seq<Seq<char>>,
    pub current: Seq<char>,
    pub in_token: bool,
    pub mode: Mode,
    pub quoted: bool,
    pub bare: Seq<bool>,
}

/// ASCII whitespace as `char::is_ascii_whitespace` defines it:
/// space, tab, line feed, form feed and carriage return.
pub open spec fn is_ascii_ws(c: char) -> bool {
    c == ' ' || c == '\t' || c == '\n' || c == '\x0C' || c == '\r'
}

/// The characters that a backslash escapes inside double quotes.
pub open spec fn dq_escapable(c: char) -> bool {
    c == '\\' || c == '"' || c == '$' || c == '`' || c == '\n'
}

pub open spec fn tok_init() -> TokState {
    TokState {
        tokens: Seq::empty(),
        current: Seq::empty(),
        in_token: false,
        mode: Mode::Plain,
        quoted: false,
        bare: Seq::empty(),
    }
}

/// One character of input.
pub open spec fn tok_step(s: TokState, c: char) -> TokState {
    match s.mode {
        Mode::Plain => {
            if c == '\'' {
                TokState { in_token: true, mode: Mode::Single, quoted: true, ..s }
            } else if c == '"' {
                TokState { in_token: true, mode: Mode::Double, quoted: true, ..s }
            } else if c == '\\' {
                TokState { in_token: true, mode: Mode::Escape, quoted: true, ..s }
            } else if is_ascii_ws(c) {
                if s.in_token {
                    TokState {
                        tokens: s.tokens.push(s.current),
                        current: Seq::empty(),
                        in_token: false,
                        mode: Mode::Plain,
                        quoted: false,
                        bare: s.bare.push(!s.quoted),
                    }
                } else {
                    s
                }
            } else {
                TokState { current: s.current.push(c), in_token: true, ..s }
            }
        },
        Mode::Single => {
            if c == '\'' {
                TokState { mode: Mode::Plain, ..s }
            } else {
                TokState { current: s.current.push(c), ..s }
            }
        },
        Mode::Double => {
            if c == '"' {
                TokState { mode: Mode::Plain, ..s }
            } else if c == '\\' {
                TokState { mode: Mode::DoubleEscape, ..s }
            } else {
                TokState { current: s.current.push(c), ..s }
            }
        },
        Mode::DoubleEscape => {
            if dq_escapable(c) {
                TokState { current: s.current.push(c), mode: Mode::Double, ..s }
            } else {
                TokState { current: s.current.push('\\').push(c), mode: Mode::Double, ..s }
            }
        },
        Mode::Escape => TokState { current: s.current.push(c), mode: Mode::Plain, ..s },
    }
}

/// The state after reading all of `cs`, starting from `s`.
pub open spec fn tok_run_from(s: TokState, cs: Seq<char>) -> TokState
    decreases cs.len(),
{
    if cs.len() == 0 {
        s
    } else {
        tok_step(tok_run_from(s, cs.drop_last()), cs.last())
    }
}

/// The state after reading all of `cs`.
pub open spec fn tok_run(cs: Seq<char>) -> TokState {
    tok_run_from(tok_init(), cs)
}

/// The tokens once the input has ended: a backslash left dangling inside
/// double quotes is kept literally, and a started token is closed.
pub open spec fn tok_finish(s: TokState) -> Seq<Seq<char>> {
    let cur = if s.mode == Mode::DoubleEscape {
        s.current.push('\\')
    } else {
        s.current
    };
    if s.in_token || cur.len() > 0 {
        s.tokens.push(cur)
    } else {
        s.tokens
    }
}

/// For each token once the input has ended, whether it is bare.
pub open spec fn tok_finish_bare(s: TokState) -> Seq<bool> {
    let cur = if s.mode == Mode::DoubleEscape {
        s.current.push('\\')
    } else {
        s.current
    };
    if s.in_token || cur.len() > 0 {
        s.bare.push(!s.quoted)
    } else {
        s.bare
    }
}

/// The tokens of a command line.
pub open spec fn spec_tokenize(input: Seq<char>) -> Seq<Seq<char>> {
    tok_finish(tok_run(input))
}

/// For each token of a command line, whether it is bare: written with no
/// quote and no backslash. Only a bare `|` separates pipeline stages.
pub open spec fn spec_bare(input: Seq<char>) -> Seq<bool> {
    tok_finish_bare(tok_run(input))
}

fn is_ascii_whitespace_char(c: char) -> (b: bool)
    ensures
        b == is_ascii_ws(c),
{
    c == ' ' || c == '\t' || c == '\n' || c == '\x0C' || c == '\r'
}

/// Tokenize input with support for single quotes, double quotes, and
/// backslash escapes.
///
/// Outside quotes a backslash takes the next character literally and ASCII
/// whitespace separates tokens; inside single quotes nothing is special;
/// inside double quotes a backslash escapes only `\`, `"`, `$`, `` ` `` and a
/// newline, and stays literal before anything else. Quotes may open and close
/// within one token, and `''` makes an empty token.
pub fn tokenize(input: &str) -> (tokens: Vec<String>)
    ensures
        views(tokens@) == spec_tokenize(input@),
{
    tokenize_marked(input).0
}

/// The tokens of a command line, and for each whether it is bare (written
/// with no quote and no backslash), as `spec_bare` says.
pub fn tokenize_marked(input: &str) -> (r: (Vec<String>, Vec<bool>))
    ensures
        views(r.0@) == spec_tokenize(input@),
        r.1@ == spec_bare(input@),
        r.0@.len() == r.1@.len(),
{
    let chars = chars_of(input);
    let mut tokens: Vec<String> = Vec::new();
    let mut current = String::new();
    let mut in_token = false;
    let mut mode = Mode::Plain;
    let mut quoted = false;
    let mut bare: Vec<bool> = Vec::new();
    let mut i: usize = 0;
    while i < chars.len()
        invariant
            i <= chars@.len(),
            chars@ == input@,
            ({
                let s = tok_run(chars@.take(i as int));
                &&& views(tokens@) == s.tokens
                &&& current@ == s.current
                &&& in_token == s.in_token
                &&& mode == s.mode
                &&& quoted == s.quoted
                &&& bare@ == s.bare
                &&& bare@.len() == tokens@.len()
            }),
        decreases chars@.len() - i,
    {
        let c = chars[i];
        proof {
            assert(chars@.take(i + 1).drop_last() =~= chars@.take(i as int));
            assert(chars@.take(i + 1).last() == c);
        }
        match mode {
            Mode::Plain => {
                if c == '\'' {
                    in_token = true;
                    quoted = true;
                    mode = Mode::Single;
                } else if c == '"' {
                    in_token = true;
                    quoted = true;
                    mode = Mode::Double;
                } else if c == '\\' {
                    in_token = true;
                    quoted = true;
                    mode = Mode::Escape;
                } else if is_ascii_whitespace_char(c) {
                    if in_token {
                        let tok = current;
                        current = String::new();
                        proof {
                            assert(views(tokens@.push(tok)) =~= views(tokens@).push(tok@));
                        }
                        tokens.push(tok);
                        bare.push(!quoted);
                        in_token = false;
                        quoted = false;
                    }
                } else {
                    push_char(&mut current, c);
                    in_token = true;
                }
            },
            Mode::Single => {
                if c == '\'' {
                    mode = Mode::Plain;
                } else {
                    push_char(&mut current, c);
                }
            },
            Mode::Double => {
                if c == '"' {
                    mode = Mode::Plain;
                } else if c == '\\' {
                    mode = Mode::DoubleEscape;
                } else {
                    push_char(&mut current, c);
                }
            },
            Mode::DoubleEscape => {
                if c == '\\' || c == '"' || c == '$' || c == '`' || c == '\n' {
                    push_char(&mut current, c);
                } else {
                    push_char(&mut current, '\\');
                    push_char(&mut current, c);
                }
                mode = Mode::Double;
            },
            Mode::Escape => {
                push_char(&mut current, c);
                mode = Mode::Plain;
            },
        }
        i = i + 1;
    }
    proof {
        assert(chars@.take(chars@.len() as int) =~= input@);
    }
    if mode == Mode::DoubleEscape {
        push_char(&mut current, '\\');
    }
    if in_token || !current.as_str().is_empty() {
        proof {
            assert(views(tokens@.push(current)) =~= views(tokens@).push(current@));
        }
        tokens.push(current);
        bare.push(!quoted);
    }
    (tokens, bare)
}

/// Reading `a` and then `b` is reading `a + b`.
pub proof fn lemma_run_concat(s: TokState, a: Seq<char>, b: Seq<char>)
    ensures
        tok_run_from(s, a + b) == tok_run_from(tok_run_from(s, a), b),
    decreases b.len(),
{
    if b.len() == 0 {
        assert(a + b =~= a);
    } else {
        lemma_run_concat(s, a, b.drop_last());
        assert((a + b).drop_last() =~= a + b.drop_last());
        assert((a + b).last() == b.last());
    }
}

proof fn lemma_run_one(s: TokState, c: char)
    ensures
        tok_run_from(s, seq![c]) == tok_step(s, c),
{
    assert(seq![c].drop_last() =~= Seq::<char>::empty());
    assert(tok_run_from(s, Seq::<char>::empty()) == s);
}

/// No character in `w` is special outside quotes.
pub open spec fn plain_word(w: Seq<char>) -> bool {
    forall|k: int|
        0 <= k < w.len() ==> {
            let c = #[trigger] w[k];
            !is_ascii_ws(c) && c != '\'' && c != '"' && c != '\\'
        }
}

/// Reading plain characters outside quotes extends the current token.
proof fn lemma_run_plain(s: TokState, w: Seq<char>)
    requires
        s.mode == Mode::Plain,
        plain_word(w),
    ensures
        tok_run_from(s, w) == (TokState {
            tokens: s.tokens,
            current: s.current + w,
            in_token: s.in_token || w.len() > 0,
            mode: Mode::Plain,
            quoted: s.quoted,
            bare: s.bare,
        }),
    decreases w.len(),
{
    if w.len() == 0 {
        assert(s.current + w =~= s.current);
    } else {
        assert(plain_word(w.drop_last()));
        lemma_run_plain(s, w.drop_last());
        assert(s.current + w.drop_last().push(w.last()) =~= s.current + w);
    }
}

proof fn lemma_run_join(ws: Seq<Seq<char>>)
    requires
        ws.len() > 0,
        forall|k: int| 0 <= k < ws.len() ==> plain_word(#[trigger] ws[k]) && ws[k].len() > 0,
    ensures
        tok_run(join_words(ws)) == (TokState {
            tokens: ws.drop_last(),
            current: ws.last(),
            in_token: true,
            mode: Mode::Plain,
            quoted: false,
            bare: Seq::new((ws.len() - 1) as nat, |i: int| true),
        }),
    decreases ws.len(),
{
    if ws.len() == 1 {
        lemma_run_plain(tok_init(), ws[0]);
        assert(Seq::<char>::empty() + ws[0] =~= ws[0]);
        assert(ws.drop_last() =~= Seq::<Seq<char>>::empty());
        assert(Seq::new(0, |i: int| true) =~= Seq::<bool>::empty());
    } else {
        let dl = ws.drop_last();
        assert forall|k: int| 0 <= k < dl.len() implies plain_word(#[trigger] dl[k]) && dl[k].len()
            > 0 by {
            assert(dl[k] == ws[k]);
        }
        lemma_run_join(dl);
        let a = join_words(dl);
        lemma_run_concat(tok_init(), a + seq![' '], ws.last());
        lemma_run_concat(tok_init(), a, seq![' ']);
        lemma_run_one(tok_run(a), ' ');
        let s1 = tok_run_from(tok_init(), a + seq![' ']);
        assert(s1.tokens =~= dl.drop_last().push(dl.last()));
        assert(dl.drop_last().push(dl.last()) =~= dl);
        assert(s1.bare =~= Seq::new((ws.len() - 1) as nat, |i: int| true));
        assert(plain_word(ws[ws.len() - 1]));
        lemma_run_plain(s1, ws.last());
        assert(Seq::<char>::empty() + ws.last() =~= ws.last());
    }
}

/// Words free of whitespace, quotes and backslashes, joined by single spaces,
/// tokenize back into the same words.
pub proof fn law_tokenize_joined_words(ws: Seq<Seq<char>>)
    requires
        forall|k: int| 0 <= k < ws.len() ==> plain_word(#[trigger] ws[k]) && ws[k].len() > 0,
    ensures
        spec_tokenize(join_words(ws)) == ws,
{
    if ws.len() == 0 {
    } else {
        lemma_run_join(ws);
        assert(ws.drop_last().push(ws.last()) =~= ws);
    }
}

proof fn lemma_run_single_body(s: TokState, w: Seq<char>)
    requires
        s.mode == Mode::Single,
        forall|k: int| 0 <= k < w.len() ==> #[trigger] w[k] != '\'',
    ensures
        tok_run_from(s, w) == (TokState { current: s.current + w, ..s }),
    decreases w.len(),
{
    if w.len() == 0 {
        assert(s.current + w =~= s.current);
    } else {
        lemma_run_single_body(s, w.drop_last());
        assert(w.drop_last().len() == w.len() - 1);
        assert(w[w.len() - 1] != '\'');
        assert(s.current + w.drop_last().push(w.last()) =~= s.current + w);
    }
}

/// Between single quotes every character is taken literally: a single-quoted
/// text without a single quote in it is one token, exactly that text.
pub proof fn law_single_quotes_literal(w: Seq<char>)
    requires
        forall|k: int| 0 <= k < w.len() ==> #[trigger] w[k] != '\'',
    ensures
        spec_tokenize(seq!['\''] + w + seq!['\'']) == seq![w],
        spec_bare(seq!['\''] + w + seq!['\'']) == seq![false],
{
    lemma_run_one(tok_init(), '\'');
    let s1 = tok_run(seq!['\'']);
    lemma_run_single_body(s1, w);
    lemma_run_concat(tok_init(), seq!['\''], w);
    lemma_run_concat(tok_init(), seq!['\''] + w, seq!['\'']);
    lemma_run_one(tok_run(seq!['\''] + w), '\'');
    assert(Seq::<char>::empty() + w =~= w);
}

proof fn lemma_run_double_body(s: TokState, w: Seq<char>)
    requires
        s.mode == Mode::Double,
        forall|k: int| 0 <= k < w.len() ==> #[trigger] w[k] != '"' && w[k] != '\\',
    ensures
        tok_run_from(s, w) == (TokState { current: s.current + w, ..s }),
    decreases w.len(),
{
    if w.len() == 0 {
        assert(s.current + w =~= s.current);
    } else {
        lemma_run_double_body(s, w.drop_last());
        assert(w[w.len() - 1] != '"' && w[w.len() - 1] != '\\');
        assert(s.current + w.drop_last().push(w.last()) =~= s.current + w);
    }
}

/// A double-quoted text with no double quote or backslash in it is one token,
/// exactly that text: whitespace and single quotes inside lose their meaning.
pub proof fn law_double_quotes_group(w: Seq<char>)
    requires
        forall|k: int| 0 <= k < w.len() ==> #[trigger] w[k] != '"' && w[k] != '\\',
    ensures
        spec_tokenize(seq!['"'] + w + seq!['"']) == seq![w],
        spec_bare(seq!['"'] + w + seq!['"']) == seq![false],
{
    lemma_run_one(tok_init(), '"');
    let s1 = tok_run(seq!['"']);
    lemma_run_double_body(s1, w);
    lemma_run_concat(tok_init(), seq!['"'], w);
    lemma_run_concat(tok_init(), seq!['"'] + w, seq!['"']);
    lemma_run_one(tok_run(seq!['"'] + w), '"');
    assert(Seq::<char>::empty() + w =~= w);
}

/// Outside quotes a backslash makes the next character, whatever it is,
/// part of the token: `\c` is the one token `c`.
pub proof fn law_backslash_escapes(c: char)
    ensures
        spec_tokenize(seq!['\\', c]) == seq![seq![c]],
        spec_bare(seq!['\\', c]) == seq![false],
{
    lemma_run_one(tok_init(), '\\');
    lemma_run_concat(tok_init(), seq!['\\'], seq![c]);
    assert(seq!['\\'] + seq![c] =~= seq!['\\', c]);
    lemma_run_one(tok_run(seq!['\\']), c);
    assert(Seq::<char>::empty().push(c) =~= seq![c]);
}

/// No quote or backslash in `s`: nothing in it is quoted or escaped.
pub open spec fn no_quoting(s: Seq<char>) -> bool {
    forall|k: int| 0 <= k < s.len() ==> #[trigger] s[k] != '\'' && s[k] != '"' && s[k] != '\\'
}

/// The words finished so far and the word being read, when `s` is split at
/// runs of ASCII whitespace.
pub open spec fn split_ws_acc(s: Seq<char>) -> (Seq<Seq<char>>, Seq<char>)
    decreases s.len(),
{
    if s.len() == 0 {
        (Seq::empty(), Seq::empty())
    } else {
        let p = split_ws_acc(s.drop_last());
        let x = s.last();
        if is_ascii_ws(x) {
            if p.1.len() > 0 {
                (p.0.push(p.1), Seq::empty())
            } else {
                (p.0, Seq::empty())
            }
        } else {
            (p.0, p.1.push(x))
        }
    }
}

/// The words of `s` between runs of ASCII whitespace, as
/// `str::split_ascii_whitespace` gives them (no empty words).
pub open spec fn split_ascii_ws(s: Seq<char>) -> Seq<Seq<char>> {
    let p = split_ws_acc(s);
    if p.1.len() > 0 {
        p.0.push(p.1)
    } else {
        p.0
    }
}

proof fn lemma_run_unquoted(s: Seq<char>)
    requires
        no_quoting(s),
    ensures
        tok_run(s) == (TokState {
            tokens: split_ws_acc(s).0,
            current: split_ws_acc(s).1,
            in_token: split_ws_acc(s).1.len() > 0,
            mode: Mode::Plain,
            quoted: false,
            bare: Seq::new(split_ws_acc(s).0.len(), |i: int| true),
        }),
    decreases s.len(),
{
    if s.len() > 0 {
        let d = s.drop_last();
        assert(no_quoting(d)) by {
            assert forall|k: int| 0 <= k < d.len() implies #[trigger] d[k] != '\'' && d[k] != '"' && d[k]
                != '\\' by {
                assert(d[k] == s[k]);
            }
        }
        lemma_run_unquoted(d);
        assert(s[s.len() - 1] == s.last());
        let p = split_ws_acc(d);
        assert(Seq::new(p.0.len(), |i: int| true).push(true) =~= Seq::new(p.0.len() + 1, |i: int| true));
    } else {
        assert(Seq::new(0, |i: int| true) =~= Seq::<bool>::empty());
    }
}

/// A line with no quotes and no backslashes tokenizes into its words between
/// runs of ASCII whitespace.
pub proof fn law_unquoted_splits_on_whitespace(s: Seq<char>)
    requires
        no_quoting(s),
    ensures
        spec_tokenize(s) == split_ascii_ws(s),
        spec_bare(s) == Seq::new(split_ascii_ws(s).len(), |i: int| true),
{
    lemma_run_unquoted(s);
    let p = split_ws_acc(s);
    if p.1.len() > 0 {
        assert(Seq::new(p.0.len(), |i: int| true).push(true) =~= Seq::new(p.0.len() + 1, |i: int| true));
    }
}

/// `s` with `t` put before its finished tokens, and `f` before their marks.
pub open spec fn with_prefix(t: Seq<Seq<char>>, f: Seq<bool>, s: TokState) -> TokState {
    TokState { tokens: t + s.tokens, bare: f + s.bare, ..s }
}

proof fn lemma_step_prefix(t: Seq<Seq<char>>, f: Seq<bool>, s: TokState, c: char)
    ensures
        tok_step(with_prefix(t, f, s), c) == with_prefix(t, f, tok_step(s, c)),
{
    assert((t + s.tokens).push(s.current) =~= t + s.tokens.push(s.current));
    assert((f + s.bare).push(!s.quoted) =~= f + s.bare.push(!s.quoted));
}

/// Tokens already finished stay in front of whatever is read next.
proof fn lemma_run_prefix(t: Seq<Seq<char>>, f: Seq<bool>, s: TokState, b: Seq<char>)
    ensures
        tok_run_from(with_prefix(t, f, s), b) == with_prefix(t, f, tok_run_from(s, b)),
    decreases b.len(),
{
    if b.len() > 0 {
        lemma_run_prefix(t, f, s, b.drop_last());
        lemma_step_prefix(t, f, tok_run_from(s, b.drop_last()), b.last());
    }
}

/// After an unquoted part and a space, the rest of the line is tokenized on
/// its own: its tokens follow those of the first part.
pub proof fn law_tokenize_concat_at_space(a: Seq<char>, b: Seq<char>)
    requires
        no_quoting(a),
    ensures
        spec_tokenize(a + seq![' '] + b) == spec_tokenize(a) + spec_tokenize(b),
        spec_bare(a + seq![' '] + b) == spec_bare(a) + spec_bare(b),
{
    lemma_run_unquoted(a);
    lemma_run_concat(tok_init(), a, seq![' ']);
    lemma_run_one(tok_run(a), ' ');
    let ta = spec_tokenize(a);
    let fa = spec_bare(a);
    assert(tok_run(a + seq![' ']) == with_prefix(ta, fa, tok_init())) by {
        assert(ta + Seq::<Seq<char>>::empty() =~= ta);
        assert(fa + Seq::<bool>::empty() =~= fa);
        let p = split_ws_acc(a);
        if p.1.len() > 0 {
            assert(Seq::new(p.0.len(), |i: int| true).push(true) =~= Seq::new(p.0.len() + 1, |i: int| true));
        }
    }
    lemma_run_concat(tok_init(), a + seq![' '], b);
    lemma_run_prefix(ta, fa, tok_init(), b);
    let rb = tok_run(b);
    assert((ta + rb.tokens).push(if rb.mode == Mode::DoubleEscape { rb.current.push('\\') } else { rb.current })
        =~= ta + rb.tokens.push(if rb.mode == Mode::DoubleEscape { rb.current.push('\\') } else { rb.current }));
    assert((fa + rb.bare).push(!rb.quoted) =~= fa + rb.bare.push(!rb.quoted));
}

/// `w` between single quotes.
pub open spec fn single_quoted(w: Seq<char>) -> Seq<char> {
    seq!['\''] + w + seq!['\'']
}

proof fn lemma_run_quoted_word(s: TokState, w: Seq<char>)
    requires
        s.mode == Mode::Plain,
        forall|k: int| 0 <= k < w.len() ==> #[trigger] w[k] != '\'',
    ensures
        tok_run_from(s, single_quoted(w)) == (TokState {
            tokens: s.tokens,
            current: s.current + w,
            in_token: true,
            mode: Mode::Plain,
            quoted: true,
            bare: s.bare,
        }),
{
    lemma_run_one(s, '\'');
    let s1 = tok_run_from(s, seq!['\'']);
    lemma_run_single_body(s1, w);
    lemma_run_concat(s, seq!['\''], w);
    lemma_run_concat(s, seq!['\''] + w, seq!['\'']);
    lemma_run_one(tok_run_from(s, seq!['\''] + w), '\'');
}

proof fn lemma_run_quoted_join(ws: Seq<Seq<char>>)
    requires
        ws.len() > 0,
        forall|i: int, k: int| 0 <= i < ws.len() && 0 <= k < ws[i].len() ==> #[trigger] ws[i][k] != '\'',
    ensures
        tok_run(join_words(ws.map_values(|w: Seq<char>| single_quoted(w)))) == (TokState {
            tokens: ws.drop_last(),
            current: ws.last(),
            in_token: true,
            mode: Mode::Plain,
            quoted: true,
            bare: Seq::new((ws.len() - 1) as nat, |i: int| false),
        }),
    decreases ws.len(),
{
    let q = ws.map_values(|w: Seq<char>| single_quoted(w));
    let last = ws.last();
    assert(forall|k: int| 0 <= k < last.len() ==> #[trigger] last[k] != '\'') by {
        assert forall|k: int| 0 <= k < last.len() implies #[trigger] last[k] != '\'' by {
            assert(ws[ws.len() - 1][k] != '\'');
        }
    }
    if ws.len() == 1 {
        lemma_run_quoted_word(tok_init(), ws[0]);
        assert(Seq::<char>::empty() + ws[0] =~= ws[0]);
        assert(ws.drop_last() =~= Seq::<Seq<char>>::empty());
        assert(Seq::new(0, |i: int| false) =~= Seq::<bool>::empty());
    } else {
        let dl = ws.drop_last();
        assert forall|i: int, k: int| 0 <= i < dl.len() && 0 <= k < dl[i].len() implies #[trigger] dl[i][k]
            != '\'' by {
            assert(dl[i] == ws[i]);
        }
        lemma_run_quoted_join(dl);
        assert(q.drop_last() =~= dl.map_values(|w: Seq<char>| single_quoted(w)));
        let a = join_words(q.drop_last());
        lemma_run_concat(tok_init(), a + seq![' '], q.last());
        lemma_run_concat(tok_init(), a, seq![' ']);
        lemma_run_one(tok_run(a), ' ');
        let s1 = tok_run_from(tok_init(), a + seq![' ']);
        assert(s1.tokens =~= dl.drop_last().push(dl.last()));
        assert(dl.drop_last().push(dl.last()) =~= dl);
        assert(s1.bare =~= Seq::new((ws.len() - 1) as nat, |i: int| false));
        lemma_run_quoted_word(s1, last);
        assert(Seq::<char>::empty() + last =~= last);
    }
}

/// Single-quoted words without single quotes in them, empty ones included,
/// joined by single spaces, tokenize back into the same words.
pub proof fn law_single_quoted_words_round_trip(ws: Seq<Seq<char>>)
    requires
        forall|i: int, k: int| 0 <= i < ws.len() && 0 <= k < ws[i].len() ==> #[trigger] ws[i][k] != '\'',
    ensures
        spec_tokenize(join_words(ws.map_values(|w: Seq<char>| single_quoted(w)))) == ws,
        spec_bare(join_words(ws.map_values(|w: Seq<char>| single_quoted(w)))) == Seq::new(ws.len(), |i: int| false),
{
    if ws.len() == 0 {
        assert(ws.map_values(|w: Seq<char>| single_quoted(w)) =~= Seq::<Seq<char>>::empty());
        assert(Seq::new(0, |i: int| false) =~= Seq::<bool>::empty());
    } else {
        lemma_run_quoted_join(ws);
        assert(ws.drop_last().push(ws.last()) =~= ws);
        assert(Seq::new((ws.len() - 1) as nat, |i: int| false).push(false) =~= Seq::new(ws.len(), |i: int| false));
    }
}

/// Tokens are separated by any of space, tab, line feed, form feed and
/// carriage return: after an unquoted part and one of them, the rest of the
/// line is tokenized on its own.
pub proof fn law_tokenize_concat_at_whitespace(a: Seq<char>, sep: char, b: Seq<char>)
    requires
        no_quoting(a),
        sep == ' ' || sep == '\t' || sep == '\n' || sep == '\x0C' || sep == '\r',
    ensures
        spec_tokenize(a + seq![sep] + b) == spec_tokenize(a) + spec_tokenize(b),
        spec_bare(a + seq![sep] + b) == spec_bare(a) + spec_bare(b),
{
    lemma_run_unquoted(a);
    lemma_run_concat(tok_init(), a, seq![sep]);
    lemma_run_one(tok_run(a), sep);
    let ta = spec_tokenize(a);
    let fa = spec_bare(a);
    assert(tok_run(a + seq![sep]) == with_prefix(ta, fa, tok_init())) by {
        assert(ta + Seq::<Seq<char>>::empty() =~= ta);
        assert(fa + Seq::<bool>::empty() =~= fa);
        let p = split_ws_acc(a);
        if p.1.len() > 0 {
            assert(Seq::new(p.0.len(), |i: int| true).push(true) =~= Seq::new(p.0.len() + 1, |i: int| true));
        }
    }
    lemma_run_concat(tok_init(), a + seq![sep], b);
    lemma_run_prefix(ta, fa, tok_init(), b);
    let rb = tok_run(b);
    assert((ta + rb.tokens).push(if rb.mode == Mode::DoubleEscape { rb.current.push('\\') } else { rb.current })
        =~= ta + rb.tokens.push(if rb.mode == Mode::DoubleEscape { rb.current.push('\\') } else { rb.current }));
    assert((fa + rb.bare).push(!rb.quoted) =~= fa + rb.bare.push(!rb.quoted));
}

/// A non-empty word made of characters other than space, tab, line feed,
/// form feed, carriage return, quotes and backslashes is one bare token,
/// exactly itself.
pub proof fn law_plain_word_is_one_token(w: Seq<char>)
    requires
        w.len() > 0,
        forall|k: int|
            0 <= k < w.len() ==> {
                let c = #[trigger] w[k];
                c != ' ' && c != '\t' && c != '\n' && c != '\x0C' && c != '\r' && c != '\'' && c != '"' && c
                    != '\\'
            },
    ensures
        spec_tokenize(w) == seq![w],
        spec_bare(w) == seq![true],
{
    assert(plain_word(w));
    lemma_run_plain(tok_init(), w);
    assert(Seq::<char>::empty() + w =~= w);
}

proof fn lemma_run_dq_backslash(s: TokState, c: char)
    requires
        s.mode == Mode::Double,
    ensures
        tok_run_from(s, seq!['\\', c]) == (TokState {
            current: if c == '\\' || c == '"' || c == '$' || c == '`' || c == '\n' {
                s.current.push(c)
            } else {
                s.current.push('\\').push(c)
            },
            mode: Mode::Double,
            ..s
        }),
{
    lemma_run_one(s, '\\');
    lemma_run_concat(s, seq!['\\'], seq![c]);
    assert(seq!['\\'] + seq![c] =~= seq!['\\', c]);
    lemma_run_one(tok_run_from(s, seq!['\\']), c);
}

/// Inside double quotes a backslash escapes only a backslash, a double
/// quote, `$`, a backquote and a line feed, which it stands for; before any
/// other character it stays, followed by that character.
pub proof fn law_double_quote_backslash(x: Seq<char>, c: char, y: Seq<char>)
    requires
        forall|k: int| 0 <= k < x.len() ==> #[trigger] x[k] != '"' && x[k] != '\\',
        forall|k: int| 0 <= k < y.len() ==> #[trigger] y[k] != '"' && y[k] != '\\',
    ensures
        (c == '\\' || c == '"' || c == '$' || c == '`' || c == '\n') ==> spec_tokenize(
            seq!['"'] + x + seq!['\\', c] + y + seq!['"'],
        ) == seq![x + seq![c] + y],
        !(c == '\\' || c == '"' || c == '$' || c == '`' || c == '\n') ==> spec_tokenize(
            seq!['"'] + x + seq!['\\', c] + y + seq!['"'],
        ) == seq![x + seq!['\\', c] + y],
{
    let q = seq!['"'];
    lemma_run_one(tok_init(), '"');
    let s1 = tok_run(q);
    lemma_run_double_body(s1, x);
    lemma_run_concat(tok_init(), q, x);
    let s2 = tok_run(q + x);
    lemma_run_dq_backslash(s2, c);
    lemma_run_concat(tok_init(), q + x, seq!['\\', c]);
    let s3 = tok_run(q + x + seq!['\\', c]);
    lemma_run_double_body(s3, y);
    lemma_run_concat(tok_init(), q + x + seq!['\\', c], y);
    let s4 = tok_run(q + x + seq!['\\', c] + y);
    lemma_run_one(s4, '"');
    lemma_run_concat(tok_init(), q + x + seq!['\\', c] + y, q);
    assert(Seq::<char>::empty() + x =~= x);
    if c == '\\' || c == '"' || c == '$' || c == '`' || c == '\n' {
        assert(x.push(c) + y =~= x + seq![c] + y);
    } else {
        assert(x.push('\\').push(c) + y =~= x + seq!['\\', c] + y);
    }
}

} // verus!
