//! Rendering: a template's `{ ... }` placeholders are replaced by the text of
//! the variables they name.
//!
//! Syntax: `{ name }` is replaced by the value of `name`; `{{` stands for a
//! literal `{`; a `}` outside a placeholder is plain text. `foreach` and
//! `endfor` are reserved: `{ foreach list }` and `{ endfor }` parse, and
//! rendering them fails with `Error::LoopNotSupported`. Whitespace is ASCII
//! whitespace throughout.

use vstd::prelude::*;
use crate::text::{is_ws, trim, int_text, parse_int, lemma_int_text_round_trip, chars_of, string_of, is_ws_char, trim_region, push_int, region_is};
use crate::value::{TemplateVar, ValueView, Vars, lookup};

verus! {

/// Why a template could not be rendered.
#[derive(Debug)]
pub enum Error {
    /// A placeholder names a variable that is not bound.
    VariableNotFound(String),
    /// A `{` opens a placeholder that no `}` closes.
    MissingClosingBrace,
    /// A variable's name is a reserved word.
    ReservedKeyword(String),
    /// A placeholder holds nothing but whitespace.
    EmptyExpression,
    /// A placeholder holds more than one word, and is no loop marker.
    InvalidExpressionSyntax,
    /// A placeholder names a list or an object, which have no text.
    UnsupportedValueShape(String),
    /// A placeholder is a `foreach` or `endfor` marker; loops are not rendered.
    LoopNotSupported,
}

pub enum ErrorView {
    VariableNotFound(Seq<char>),
    MissingClosingBrace,
    ReservedKeyword(Seq<char>),
    EmptyExpression,
    InvalidExpressionSyntax,
    UnsupportedValueShape(Seq<char>),
    LoopNotSupported,
}

impl View for Error {
    type V = ErrorView;

    open spec fn view(&self) -> ErrorView {
        match self {
            Error::VariableNotFound(n) => ErrorView::VariableNotFound(n@),
            Error::MissingClosingBrace => ErrorView::MissingClosingBrace,
            Error::ReservedKeyword(n) => ErrorView::ReservedKeyword(n@),
            Error::EmptyExpression => ErrorView::EmptyExpression,
            Error::InvalidExpressionSyntax => ErrorView::InvalidExpressionSyntax,
            Error::UnsupportedValueShape(n) => ErrorView::UnsupportedValueShape(n@),
            Error::LoopNotSupported => ErrorView::LoopNotSupported,
        }
    }
}

/// One parsed placeholder.
#[derive(Debug)]
pub enum Expr {
    /// `{ name }`
    VarAccess(String),
    /// `{ foreach name }`
    ForEach(String),
    /// `{ endfor }`
    EndFor,
}

pub enum ExprView {
    VarAccess(Seq<char>),
    ForEach(Seq<char>),
    EndFor,
}

impl View for Expr {
    type V = ExprView;

    open spec fn view(&self) -> ExprView {
        match self {
            Expr::VarAccess(n) => ExprView::VarAccess(n@),
            Expr::ForEach(n) => ExprView::ForEach(n@),
            Expr::EndFor => ExprView::EndFor,
        }
    }
}

pub open spec fn foreach_word() -> Seq<char> {
    seq!['f', 'o', 'r', 'e', 'a', 'c', 'h']
}

pub open spec fn endfor_word() -> Seq<char> {
    seq!['e', 'n', 'd', 'f', 'o', 'r']
}

pub open spec fn is_reserved(name: Seq<char>) -> bool {
    name == foreach_word() || name == endfor_word()
}

pub open spec fn no_ws(s: Seq<char>) -> bool {
    forall|i: int| 0 <= i < s.len() ==> !is_ws(#[trigger] s[i])
}

/// What a trimmed placeholder body parses to.
pub open spec fn parse_spec(b: Seq<char>) -> Result<ExprView, ErrorView> {
    if b.len() == 0 {
        Err(ErrorView::EmptyExpression)
    } else if no_ws(b) {
        if b == endfor_word() {
            Ok(ExprView::EndFor)
        } else if b == foreach_word() {
            Err(ErrorView::InvalidExpressionSyntax)
        } else {
            Ok(ExprView::VarAccess(b))
        }
    } else if b.len() > 7 && b.subrange(0, 7) == foreach_word() && is_ws(b[7]) {
        let rest = trim(b.subrange(8, b.len() as int));
        if rest.len() > 0 && no_ws(rest) {
            Ok(ExprView::ForEach(rest))
        } else {
            Err(ErrorView::InvalidExpressionSyntax)
        }
    } else {
        Err(ErrorView::InvalidExpressionSyntax)
    }
}

/// The text of a variable's value.
pub open spec fn value_text(name: Seq<char>, v: ValueView) -> Result<Seq<char>, ErrorView> {
    match v {
        ValueView::Str(s) => Ok(s),
        ValueView::Int(n) => Ok(int_text(n)),
        ValueView::Float(s) => Ok(s),
        ValueView::Object => Err(ErrorView::UnsupportedValueShape(name)),
        ValueView::List => Err(ErrorView::UnsupportedValueShape(name)),
    }
}

/// The text that an expression renders to under the variables `env`.
pub open spec fn eval_spec(e: ExprView, env: Seq<(Seq<char>, ValueView)>) -> Result<
    Seq<char>,
    ErrorView,
> {
    match e {
        ExprView::VarAccess(n) => match lookup(env, n) {
            None => Err(ErrorView::VariableNotFound(n)),
            Some(v) => value_text(n, v),
        },
        ExprView::ForEach(_) => Err(ErrorView::LoopNotSupported),
        ExprView::EndFor => Err(ErrorView::LoopNotSupported),
    }
}

/// What the text between a placeholder's braces renders to.
pub open spec fn placeholder_spec(body: Seq<char>, env: Seq<(Seq<char>, ValueView)>) -> Result<
    Seq<char>,
    ErrorView,
> {
    match parse_spec(trim(body)) {
        Err(e) => Err(e),
        Ok(x) => eval_spec(x, env),
    }
}

/// The first `}` at or after position `k`.
pub open spec fn close_from(t: Seq<char>, k: int) -> Option<int>
    decreases t.len() - k,
{
    if k < 0 || k >= t.len() {
        None
    } else if t[k] == '}' {
        Some(k)
    } else {
        close_from(t, k + 1)
    }
}

pub proof fn lemma_close_from(t: Seq<char>, k: int)
    ensures
        close_from(t, k) matches Some(j) ==> k <= j < t.len() && t[j] == '}',
    decreases t.len() - k,
{
    if 0 <= k < t.len() && t[k] != '}' {
        lemma_close_from(t, k + 1);
    }
}

/// `p` put in front of a successful result.
pub open spec fn prepend(p: Seq<char>, r: Result<Seq<char>, ErrorView>) -> Result<
    Seq<char>,
    ErrorView,
> {
    match r {
        Ok(s) => Ok(p + s),
        Err(e) => Err(e),
    }
}

/// The rendering of `t` from position `i` on: the first error met, or the
/// text.
pub open spec fn render_from(t: Seq<char>, i: int, env: Seq<(Seq<char>, ValueView)>) -> Result<
    Seq<char>,
    ErrorView,
>
    decreases t.len() - i,
    via render_from_decreases
{
    if i < 0 || i >= t.len() {
        Ok(Seq::empty())
    } else if t[i] != '{' {
        prepend(seq![t[i]], render_from(t, i + 1, env))
    } else if i + 1 < t.len() && t[i + 1] == '{' {
        prepend(seq!['{'], render_from(t, i + 2, env))
    } else {
        match close_from(t, i + 1) {
            None => Err(ErrorView::MissingClosingBrace),
            Some(j) => match placeholder_spec(t.subrange(i + 1, j), env) {
                Err(e) => Err(e),
                Ok(s) => prepend(s, render_from(t, j + 1, env)),
            },
        }
    }
}

#[via_fn]
proof fn render_from_decreases(t: Seq<char>, i: int, env: Seq<(Seq<char>, ValueView)>) {
    lemma_close_from(t, i + 1);
}

/// The first variable, in order, whose name is reserved.
pub open spec fn first_reserved(env: Seq<(Seq<char>, ValueView)>) -> Option<Seq<char>> {
    if exists|i: int| 0 <= i < env.len() && is_reserved(#[trigger] env[i].0) {
        let i = choose|i: int|
            0 <= i < env.len() && is_reserved(#[trigger] env[i].0) && forall|m: int|
                0 <= m < i ==> !is_reserved(#[trigger] env[m].0);
        Some(env[i].0)
    } else {
        None
    }
}

/// What rendering `t` with the variables `env` gives.
pub open spec fn render_spec(t: Seq<char>, env: Seq<(Seq<char>, ValueView)>) -> Result<
    Seq<char>,
    ErrorView,
> {
    match first_reserved(env) {
        Some(k) => Err(ErrorView::ReservedKeyword(k)),
        None => render_from(t, 0, env),
    }
}

pub open spec fn result_view(r: Result<String, Error>) -> Result<Seq<char>, ErrorView> {
    match r {
        Ok(s) => Ok(s@),
        Err(e) => Err(e@),
    }
}

/// Whether `cs[lo..hi]` holds no whitespace.
fn region_no_ws(cs: &Vec<char>, lo: usize, hi: usize) -> (r: bool)
    requires
        lo <= hi <= cs@.len(),
    ensures
        r == no_ws(cs@.subrange(lo as int, hi as int)),
{
    let mut k: usize = lo;
    while k < hi
        invariant
            lo <= k <= hi <= cs@.len(),
            forall|m: int| lo <= m < k ==> !is_ws(#[trigger] cs@[m]),
        decreases hi - k,
    {
        if is_ws_char(cs[k]) {
            assert(is_ws(cs@.subrange(lo as int, hi as int)[k - lo]));
            return false;
        }
        k = k + 1;
    }
    assert forall|i: int| 0 <= i < hi - lo implies !is_ws(
        #[trigger] cs@.subrange(lo as int, hi as int)[i],
    ) by {
        assert(cs@.subrange(lo as int, hi as int)[i] == cs@[lo + i]);
    }
    true
}

/// Parses the trimmed placeholder body `cs[lo..hi]`.
fn parse_region(cs: &Vec<char>, lo: usize, hi: usize) -> (r: Result<Expr, Error>)
    requires
        lo <= hi <= cs@.len(),
    ensures
        match r {
            Ok(e) => parse_spec(cs@.subrange(lo as int, hi as int)) == Ok::<ExprView, ErrorView>(e@),
            Err(e) => parse_spec(cs@.subrange(lo as int, hi as int)) == Err::<ExprView, ErrorView>(e@),
        },
{
    let ghost b = cs@.subrange(lo as int, hi as int);
    let foreach_w: Vec<char> = vec!['f', 'o', 'r', 'e', 'a', 'c', 'h'];
    let endfor_w: Vec<char> = vec!['e', 'n', 'd', 'f', 'o', 'r'];
    assert(foreach_w@ == foreach_word());
    assert(endfor_w@ == endfor_word());
    if lo == hi {
        return Err(Error::EmptyExpression);
    }
    if region_no_ws(cs, lo, hi) {
        if region_is(cs, lo, hi, &endfor_w) {
            Ok(Expr::EndFor)
        } else if region_is(cs, lo, hi, &foreach_w) {
            Err(Error::InvalidExpressionSyntax)
        } else {
            Ok(Expr::VarAccess(string_of(cs, lo, hi)))
        }
    } else if hi - lo > 7 && region_is(cs, lo, lo + 7, &foreach_w) && is_ws_char(cs[lo + 7]) {
        assert(b.subrange(0, 7) =~= cs@.subrange(lo as int, lo + 7));
        assert(b.subrange(8, b.len() as int) =~= cs@.subrange(lo + 8, hi as int));
        let (a, z) = trim_region(cs, lo + 8, hi);
        if a < z && region_no_ws(cs, a, z) {
            Ok(Expr::ForEach(string_of(cs, a, z)))
        } else {
            Err(Error::InvalidExpressionSyntax)
        }
    } else {
        proof {
            if b.len() > 7 && b.subrange(0, 7) == foreach_word() {
                assert(b.subrange(0, 7) =~= cs@.subrange(lo as int, lo + 7));
            }
        }
        Err(Error::InvalidExpressionSyntax)
    }
}

/// Parses a placeholder body; surrounding whitespace is ignored.
pub fn parse_expr(expr: &str) -> (r: Result<Expr, Error>)
    ensures
        match r {
            Ok(e) => parse_spec(trim(expr@)) == Ok::<ExprView, ErrorView>(e@),
            Err(e) => parse_spec(trim(expr@)) == Err::<ExprView, ErrorView>(e@),
        },
{
    let cs = chars_of(expr);
    let (a, b) = trim_region(&cs, 0, cs.len());
    assert(cs@.subrange(0, cs@.len() as int) =~= expr@);
    parse_region(&cs, a, b)
}

/// Appends the text of `e` under `vars`, or tells why it has none.
fn eval_into(e: &Expr, vars: &Vars, out: &mut Vec<char>) -> (r: Result<(), Error>)
    requires
        vars.wf(),
    ensures
        match eval_spec(e@, vars@) {
            Ok(s) => r is Ok && final(out)@ == old(out)@ + s,
            Err(x) => r matches Err(y) && y@ == x,
        },
{
    match e {
        Expr::VarAccess(name) => match vars.get(name) {
            None => Err(Error::VariableNotFound(name.clone())),
            Some(v) => match v {
                TemplateVar::String(s) => {
                    let mut cs = chars_of(s.as_str());
                    out.append(&mut cs);
                    Ok(())
                },
                TemplateVar::Int(n) => {
                    push_int(out, *n);
                    Ok(())
                },
                TemplateVar::Float(s) => {
                    let mut cs = chars_of(s.as_str());
                    out.append(&mut cs);
                    Ok(())
                },
                TemplateVar::Object(_) => Err(Error::UnsupportedValueShape(name.clone())),
                TemplateVar::Vec(_) => Err(Error::UnsupportedValueShape(name.clone())),
            },
        },
        Expr::ForEach(_) => Err(Error::LoopNotSupported),
        Expr::EndFor => Err(Error::LoopNotSupported),
    }
}

/// Refuses variables whose names are reserved words; the first such name, in
/// the variables' order, is reported.
pub fn validate_vars(vars: &Vars) -> (r: Result<(), Error>)
    ensures
        match first_reserved(vars@) {
            None => r is Ok,
            Some(k) => r matches Err(e) && e@ == ErrorView::ReservedKeyword(k),
        },
{
    let foreach_w: Vec<char> = vec!['f', 'o', 'r', 'e', 'a', 'c', 'h'];
    let endfor_w: Vec<char> = vec!['e', 'n', 'd', 'f', 'o', 'r'];
    assert(foreach_w@ == foreach_word());
    assert(endfor_w@ == endfor_word());
    let mut i: usize = 0;
    while i < vars.len()
        invariant
            i <= vars@.len(),
            foreach_w@ == foreach_word(),
            endfor_w@ == endfor_word(),
            forall|m: int| 0 <= m < i ==> !is_reserved(#[trigger] vars@[m].0),
        decreases vars@.len() - i,
    {
        let (name, _) = vars.entry(i);
        let cs = chars_of(name.as_str());
        assert(cs@.subrange(0, cs@.len() as int) =~= cs@);
        if region_is(&cs, 0, cs.len(), &foreach_w) || region_is(&cs, 0, cs.len(), &endfor_w) {
            proof {
                assert(is_reserved(vars@[i as int].0));
                let j = choose|j: int|
                    0 <= j < vars@.len() && is_reserved(#[trigger] vars@[j].0) && forall|m: int|
                        0 <= m < j ==> !is_reserved(#[trigger] vars@[m].0);
                if j < i {
                    assert(!is_reserved(vars@[j].0));
                } else if j > i {
                    assert(!is_reserved(vars@[i as int].0));
                }
            }
            return Err(Error::ReservedKeyword(name.clone()));
        }
        i = i + 1;
    }
    Ok(())
}

proof fn lemma_prepend_prepend(a: Seq<char>, b: Seq<char>, r: Result<Seq<char>, ErrorView>)
    ensures
        prepend(a, prepend(b, r)) == prepend(a + b, r),
{
    if let Ok(s) = r {
        assert(a + (b + s) =~= (a + b) + s);
    }
}

/// Renders the template `text` with the variables `vars`: each placeholder is replaced
/// by the text of its variable, and the first error met stops the rendering.
pub fn template(text: &str, vars: Vars) -> (r: Result<String, Error>)
    requires
        vars.wf(),
    ensures
        result_view(r) == render_spec(text@, vars@),
{
    match validate_vars(&vars) {
        Err(e) => {
            return Err(e);
        },
        Ok(()) => {},
    }
    let ghost env = vars@;
    let t = chars_of(text);
    let n = t.len();
    let mut out: Vec<char> = Vec::new();
    let mut i: usize = 0;
    assert(out@ + Seq::<char>::empty() =~= Seq::<char>::empty());
    proof {
        if let Ok(s) = render_from(t@, 0, env) {
            assert(out@ + s =~= s);
        }
    }
    while i < n
        invariant
            n == t@.len(),
            t@ == text@,
            i <= n,
            vars.wf(),
            env == vars@,
            first_reserved(env) is None,
            render_from(t@, 0, env) == prepend(out@, render_from(t@, i as int, env)),
        decreases n - i,
    {
        let ghost old_out = out@;
        if t[i] != '{' {
            assert(render_from(t@, i as int, env) == prepend(seq![t@[i as int]], render_from(t@, i + 1, env)));
            proof {
                lemma_prepend_prepend(out@, seq![t@[i as int]], render_from(t@, i + 1, env));
            }
            out.push(t[i]);
            assert(out@ == old_out + seq![t@[i as int]]);
            i = i + 1;
        } else if i + 1 < n && t[i + 1] == '{' {
            assert(render_from(t@, i as int, env) == prepend(seq!['{'], render_from(t@, i + 2, env)));
            proof {
                lemma_prepend_prepend(out@, seq!['{'], render_from(t@, i + 2, env));
            }
            out.push('{');
            assert(out@ == old_out + seq!['{']);
            i = i + 2;
        } else {
            let mut j: usize = i + 1;
            while j < n && t[j] != '}'
                invariant
                    n == t@.len(),
                    i < j <= n,
                    close_from(t@, i + 1) == close_from(t@, j as int),
                decreases n - j,
            {
                j = j + 1;
            }
            if j == n {
                assert(close_from(t@, j as int) is None);
                assert(render_from(t@, i as int, env) == Err::<Seq<char>, ErrorView>(
                    ErrorView::MissingClosingBrace,
                ));
                return Err(Error::MissingClosingBrace);
            }
            assert(close_from(t@, j as int) == Some(j as int));
            let (a, b) = trim_region(&t, i + 1, j);
            assert(trim(t@.subrange(i + 1, j as int)) == t@.subrange(a as int, b as int));
            let e = match parse_region(&t, a, b) {
                Ok(e) => e,
                Err(x) => {
                    return Err(x);
                },
            };
            let ghost before = out@;
            match eval_into(&e, &vars, &mut out) {
                Ok(()) => {},
                Err(x) => {
                    return Err(x);
                },
            }
            proof {
                let s = out@.subrange(before.len() as int, out@.len() as int);
                let s2 = eval_spec(e@, env)->Ok_0;
                assert(out@ == before + s2);
                assert(s =~= s2);
                assert(placeholder_spec(t@.subrange(i + 1, j as int), env) == Ok::<Seq<char>, ErrorView>(s));
                assert(render_from(t@, i as int, env) == prepend(s, render_from(t@, j + 1, env)));
                assert(out@ =~= before + s);
                lemma_prepend_prepend(before, s, render_from(t@, j + 1, env));
            }
            i = j + 1;
        }
    }
    assert(render_from(t@, n as int, env) == Ok::<Seq<char>, ErrorView>(Seq::empty()));
    assert(out@ + Seq::<char>::empty() =~= out@);
    assert(out@.subrange(0, out@.len() as int) =~= out@);
    Ok(string_of(&out, 0, out.len()))
}

proof fn lemma_plain_from(t: Seq<char>, i: int, env: Seq<(Seq<char>, ValueView)>)
    requires
        0 <= i <= t.len(),
        !t.contains('{'),
    ensures
        render_from(t, i, env) == Ok::<Seq<char>, ErrorView>(t.subrange(i, t.len() as int)),
    decreases t.len() - i,
{
    if i < t.len() {
        assert(t[i] != '{') by {
            if t[i] == '{' {
                assert(t.contains('{'));
            }
        }
        lemma_plain_from(t, i + 1, env);
        assert(seq![t[i]] + t.subrange(i + 1, t.len() as int) =~= t.subrange(i, t.len() as int));
    } else {
        assert(t.subrange(i, t.len() as int) =~= Seq::<char>::empty());
    }
}

/// Text without a `{` renders to itself, with any variables whose names are
/// not reserved.
pub proof fn lemma_plain_text_unchanged(t: Seq<char>, env: Seq<(Seq<char>, ValueView)>)
    requires
        !t.contains('{'),
        first_reserved(env) is None,
    ensures
        render_spec(t, env) == Ok::<Seq<char>, ErrorView>(t),
{
    lemma_plain_from(t, 0, env);
    assert(t.subrange(0, t.len() as int) =~= t);
}

/// Rendering is idempotent: output that holds no `{` renders to itself again,
/// with the same variables or any others whose names are not reserved.
pub proof fn lemma_render_idempotent(
    t: Seq<char>,
    env: Seq<(Seq<char>, ValueView)>,
    out: Seq<char>,
    env2: Seq<(Seq<char>, ValueView)>,
)
    requires
        render_spec(t, env) == Ok::<Seq<char>, ErrorView>(out),
        !out.contains('{'),
        first_reserved(env2) is None,
    ensures
        render_spec(out, env2) == Ok::<Seq<char>, ErrorView>(out),
{
    lemma_plain_text_unchanged(out, env2);
}

/// The text that a string or an integer renders to reads back as that value:
/// a string as itself, an integer through decimal parsing.
pub proof fn lemma_scalar_text_round_trip(name: Seq<char>, v: ValueView)
    ensures
        v matches ValueView::Str(s) ==> value_text(name, v) == Ok::<Seq<char>, ErrorView>(s),
        v matches ValueView::Int(n) ==> value_text(name, v) matches Ok(s) && parse_int(s) == Some(n),
{
    if let ValueView::Int(n) = v {
        lemma_int_text_round_trip(n);
    }
}

} // verus!
