//! Items of a class that are stored in its virtual function table: virtual
//! functions, and `use` items that mark a type as used by the table.

use vstd::prelude::*;
use crate::tokens::{Delim, Spacing, Tok, TokV, tv};
use crate::scan::{
    Span, Stop, scan, close_of, balanced, is_balanced, lemma_scan_stop_walk, punct_is, ident_is, open_is, find_stop, find_close, punct_at,
    ident_at, open_at, lemma_scan_bounds, lemma_close_of_bounds,
};
use crate::syntax::{Syntax, valid, is_valid};
use crate::error::{Expected, ParseError, err};
use crate::parse::{p_attrs, p_ident, parse_attrs, parse_ident, lemma_attrs_end, with_acc};
use crate::items::Use;
use crate::emit::{id, pn, s_span, push_span, push_punct, push_ident, push_open, push_close};

verus! {

/// A parameter of a virtual function: `...`, or `pattern: Type`.
#[derive(Clone, Copy, PartialEq, Eq, Debug, Structural)]
pub enum VirtFnArgKind {
    Variadic(Span),
    Typed { pat: Span, ty: Span },
}

/// A parameter of a virtual function with its attributes.
#[derive(Clone, Copy, PartialEq, Eq, Debug, Structural)]
pub struct VirtFnArg {
    pub attrs: Span,
    pub kind: VirtFnArgKind,
}

/// A virtual function `fn name(args) output`: `args` is the inside of the
/// parentheses, `inputs` the parameters in it, `output` the return type
/// (possibly empty).
pub struct VirtFn {
    pub name: Span,
    pub args: Span,
    pub inputs: Vec<VirtFnArg>,
    pub output: Span,
}

pub struct VirtFnV {
    pub name: Span,
    pub args: Span,
    pub inputs: Seq<VirtFnArg>,
    pub output: Span,
}

impl View for VirtFn {
    type V = VirtFnV;

    open spec fn view(&self) -> VirtFnV {
        VirtFnV { name: self.name, args: self.args, inputs: self.inputs@, output: self.output }
    }
}

/// What a virtual item declares.
pub enum Kind {
    Fn(VirtFn),
    Use(Use),
}

pub enum KindV {
    Fn(VirtFnV),
    Use(Use),
}

impl View for Kind {
    type V = KindV;

    open spec fn view(&self) -> KindV {
        match self {
            Kind::Fn(f) => KindV::Fn(f@),
            Kind::Use(u) => KindV::Use(*u),
        }
    }
}

/// A virtual item with its attributes and visibility.
pub struct Item {
    pub attrs: Span,
    pub vis: Span,
    pub kind: Kind,
}

pub struct ItemV {
    pub attrs: Span,
    pub vis: Span,
    pub kind: KindV,
}

impl View for Item {
    type V = ItemV;

    open spec fn view(&self) -> ItemV {
        ItemV { attrs: self.attrs, vis: self.vis, kind: self.kind@ }
    }
}

/// Three dots `...`, as `syn` recognizes them.
pub open spec fn dots_at(ts: Seq<TokV>, p: int, end: int) -> bool {
    &&& 0 <= p && p + 2 < end && p + 2 < ts.len()
    &&& ts[p] == TokV::Punct('.', Spacing::Joint)
    &&& ts[p + 1] == TokV::Punct('.', Spacing::Joint)
    &&& punct_is(ts, p + 2, end, '.')
}

fn dots(toks: &Vec<Tok>, p: usize, end: usize) -> (r: bool)
    requires
        end <= toks@.len(),
    ensures
        r == dots_at(tv(toks@), p as int, end as int),
{
    if p < end && end - p > 2 {
        let a = match &toks[p] {
            Tok::Punct(c, Spacing::Joint) => *c == '.',
            _ => false,
        };
        let b = match &toks[p + 1] {
            Tok::Punct(c, Spacing::Joint) => *c == '.',
            _ => false,
        };
        a && b && punct_at(toks, p + 2, end, '.')
    } else {
        false
    }
}

/// `"..."`, or `pattern ":" type`: the pattern ends at a `:` that is not
/// part of `::`, the type at `,`, both outside groups and angle brackets,
/// and `syn` must accept both. A type that runs to the end of the
/// parameters must also close the groups and angle brackets it opens, as
/// one that ends at a `,` does.
pub open spec fn p_fn_arg_kind(ts: Seq<TokV>, p: usize, end: usize) -> Result<(VirtFnArgKind, usize), ParseError> {
    if dots_at(ts, p as int, end as int) {
        Ok((VirtFnArgKind::Variadic(Span { start: p, end: (p + 3) as usize }), (p + 3) as usize))
    } else {
        let q1 = scan(ts, p as int, end as int, 0, 0, Stop::Colon);
        let pat = Span { start: p, end: q1 as usize };
        if q1 > p && valid(Syntax::Pat, ts, pat) {
            if punct_is(ts, q1, end as int, ':') {
                let q2 = scan(ts, q1 + 1, end as int, 0, 0, Stop::Comma);
                let ty = Span { start: (q1 + 1) as usize, end: q2 as usize };
                if q2 > q1 + 1 && valid(Syntax::Type, ts, ty) && balanced(ts, ty) {
                    Ok((VirtFnArgKind::Typed { pat, ty }, q2 as usize))
                } else {
                    Err(err(q1 + 1, Expected::Syntax(Syntax::Type)))
                }
            } else {
                Err(err(q1, Expected::Punct(':')))
            }
        } else {
            Err(err(p as int, Expected::Syntax(Syntax::Pat)))
        }
    }
}

/// `attrs kind`.
pub open spec fn p_fn_arg(ts: Seq<TokV>, p: usize, end: usize) -> Result<(VirtFnArg, usize), ParseError> {
    match p_attrs(ts, p, end) {
        Ok((attrs, p1)) => match p_fn_arg_kind(ts, p1, end) {
            Ok((kind, q)) => Ok((VirtFnArg { attrs, kind }, q)),
            Err(e) => Err(e),
        },
        Err(e) => Err(e),
    }
}

pub proof fn lemma_fn_arg(ts: Seq<TokV>, p: usize, end: usize)
    requires
        p <= end,
    ensures
        p_fn_arg(ts, p, end) matches Ok((_, q)) ==> p < q <= end,
{
    lemma_attrs_end(ts, p, end);
    if let Ok((attrs, p1)) = p_attrs(ts, p, end) {
        lemma_scan_bounds(ts, p1 as int, end as int, 0, 0, Stop::Colon);
        let q1 = scan(ts, p1 as int, end as int, 0, 0, Stop::Colon);
        lemma_scan_bounds(ts, q1 + 1, end as int, 0, 0, Stop::Comma);
    }
}

/// Parameters separated by commas, with an optional trailing comma, up to
/// `end`, appended to `acc`.
pub open spec fn p_fn_args(ts: Seq<TokV>, p: usize, end: usize, acc: Seq<VirtFnArg>)
    -> Result<(Seq<VirtFnArg>, usize), ParseError>
    decreases end - p,
{
    if p >= end {
        Ok((acc, p))
    } else {
        match p_fn_arg(ts, p, end) {
            Ok((a, q)) => if q >= end {
                Ok((acc.push(a), q))
            } else if punct_is(ts, q as int, end as int, ',') {
                proof { lemma_fn_arg(ts, p, end); }
                p_fn_args(ts, (q + 1) as usize, end, acc.push(a))
            } else {
                Err(err(q as int, Expected::Punct(',')))
            },
            Err(e) => Err(e),
        }
    }
}

/// `"fn" name "(" args ")" output`, where the return type ends at `;`
/// outside groups and angle brackets and `syn` must accept it.
pub open spec fn p_virt_fn(ts: Seq<TokV>, p: usize, end: usize) -> Result<(VirtFnV, usize), ParseError> {
    if ident_is(ts, p as int, end as int, "fn"@) {
        match p_ident(ts, (p + 1) as usize, end) {
            Ok((name, n)) => if open_is(ts, n as int, end as int, Delim::Paren) {
                let c = close_of(ts, n + 1, end as int, 0);
                if c < end {
                    match p_fn_args(ts, (n + 1) as usize, c as usize, seq![]) {
                        Ok((inputs, _)) => {
                            let q = scan(ts, c + 1, end as int, 0, 0, Stop::Semi);
                            let output = Span { start: (c + 1) as usize, end: q as usize };
                            if valid(Syntax::ReturnType, ts, output) {
                                let args = Span { start: (n + 1) as usize, end: c as usize };
                                Ok((VirtFnV { name, args, inputs, output }, q as usize))
                            } else {
                                Err(err(c + 1, Expected::Syntax(Syntax::ReturnType)))
                            }
                        },
                        Err(e) => Err(e),
                    }
                } else {
                    Err(err(n as int, Expected::Closing))
                }
            } else {
                Err(err(n as int, Expected::Group(Delim::Paren)))
            },
            Err(e) => Err(e),
        }
    } else {
        Err(err(p as int, Expected::Fn))
    }
}

pub proof fn lemma_virt_fn(ts: Seq<TokV>, p: usize, end: usize)
    requires
        p <= end,
    ensures
        p_virt_fn(ts, p, end) matches Ok((_, q)) ==> p < q <= end,
{
    if let Ok((name, n)) = p_ident(ts, (p + 1) as usize, end) {
        lemma_close_of_bounds(ts, n + 1, end as int, 0);
        let c = close_of(ts, n + 1, end as int, 0);
        lemma_scan_bounds(ts, c + 1, end as int, 0, 0, Stop::Semi);
    }
}

impl VirtFnArgKind {
    /// Reads `...` or `pattern: Type` at `p`.
    pub fn parse(toks: &Vec<Tok>, p: usize, end: usize) -> (r: Result<(VirtFnArgKind, usize), ParseError>)
        requires
            p <= end <= toks@.len(),
        ensures
            r == p_fn_arg_kind(tv(toks@), p, end),
            r matches Ok((_, q)) ==> p < q <= end,
    {
        proof {
            lemma_scan_bounds(tv(toks@), p as int, end as int, 0, 0, Stop::Colon);
            let q1 = scan(tv(toks@), p as int, end as int, 0, 0, Stop::Colon);
            lemma_scan_bounds(tv(toks@), q1 + 1, end as int, 0, 0, Stop::Comma);
        }
        if dots(toks, p, end) {
            return Ok((VirtFnArgKind::Variadic(Span { start: p, end: p + 3 }), p + 3));
        }
        let q1 = find_stop(toks, p, end, Stop::Colon);
        let pat = Span { start: p, end: q1 };
        if q1 > p && is_valid(Syntax::Pat, toks, pat) {
            if punct_at(toks, q1, end, ':') {
                let q2 = find_stop(toks, q1 + 1, end, Stop::Comma);
                let ty = Span { start: q1 + 1, end: q2 };
                if q2 > q1 + 1 && is_valid(Syntax::Type, toks, ty) && is_balanced(toks, ty) {
                    Ok((VirtFnArgKind::Typed { pat, ty }, q2))
                } else {
                    Err(ParseError { at: q1 + 1, expected: Expected::Syntax(Syntax::Type) })
                }
            } else {
                Err(ParseError { at: q1, expected: Expected::Punct(':') })
            }
        } else {
            Err(ParseError { at: p, expected: Expected::Syntax(Syntax::Pat) })
        }
    }
}

impl VirtFnArg {
    /// Reads a parameter at `p`.
    pub fn parse(toks: &Vec<Tok>, p: usize, end: usize) -> (r: Result<(VirtFnArg, usize), ParseError>)
        requires
            p <= end <= toks@.len(),
        ensures
            r == p_fn_arg(tv(toks@), p, end),
            r matches Ok((_, q)) ==> p < q <= end,
    {
        proof { lemma_attrs_end(tv(toks@), p, end); }
        let (attrs, p1) = parse_attrs(toks, p, end)?;
        let (kind, q) = VirtFnArgKind::parse(toks, p1, end)?;
        Ok((VirtFnArg { attrs, kind }, q))
    }
}

fn parse_fn_args(toks: &Vec<Tok>, p: usize, end: usize, acc: &mut Vec<VirtFnArg>)
    -> (r: Result<usize, ParseError>)
    requires
        p <= end <= toks@.len(),
    ensures
        p_fn_args(tv(toks@), p, end, old(acc)@) == with_acc(r, final(acc)@),
    decreases end - p,
{
    if p >= end {
        return Ok(p);
    }
    let (a, q) = VirtFnArg::parse(toks, p, end)?;
    acc.push(a);
    if q >= end {
        Ok(q)
    } else if punct_at(toks, q, end, ',') {
        parse_fn_args(toks, q + 1, end, acc)
    } else {
        Err(ParseError { at: q, expected: Expected::Punct(',') })
    }
}

impl VirtFn {
    /// Reads a virtual function at `p`, which must start with `fn`.
    pub fn parse(toks: &Vec<Tok>, p: usize, end: usize) -> (r: Result<(VirtFn, usize), ParseError>)
        requires
            p <= end <= toks@.len(),
        ensures
            res_view_fn(r) == p_virt_fn(tv(toks@), p, end),
            r matches Ok((_, q)) ==> p < q <= end,
    {
        proof { lemma_virt_fn(tv(toks@), p, end); }
        if !ident_at(toks, p, end, "fn") {
            return Err(ParseError { at: p, expected: Expected::Fn });
        }
        let (name, n) = parse_ident(toks, p + 1, end)?;
        if !open_at(toks, n, end, Delim::Paren) {
            return Err(ParseError { at: n, expected: Expected::Group(Delim::Paren) });
        }
        let c = find_close(toks, n + 1, end);
        if c >= end {
            return Err(ParseError { at: n, expected: Expected::Closing });
        }
        let mut inputs: Vec<VirtFnArg> = Vec::new();
        let _ = parse_fn_args(toks, n + 1, c, &mut inputs)?;
        let q = find_stop(toks, c + 1, end, Stop::Semi);
        let output = Span { start: c + 1, end: q };
        if is_valid(Syntax::ReturnType, toks, output) {
            let args = Span { start: n + 1, end: c };
            Ok((VirtFn { name, args, inputs, output }, q))
        } else {
            Err(ParseError { at: c + 1, expected: Expected::Syntax(Syntax::ReturnType) })
        }
    }
}

pub open spec fn res_view_fn(r: Result<(VirtFn, usize), ParseError>) -> Result<(VirtFnV, usize), ParseError> {
    match r {
        Ok((f, q)) => Ok((f@, q)),
        Err(e) => Err(e),
    }
}

/// A parameter of a virtual function: `...` or `pat: Type`.
pub open spec fn s_fn_arg_kind(acc: Seq<TokV>, ts: Seq<TokV>, k: VirtFnArgKind) -> Seq<TokV> {
    match k {
        VirtFnArgKind::Variadic(d) => s_span(acc, ts, d),
        VirtFnArgKind::Typed { pat, ty } => s_span(s_span(acc, ts, pat).push(pn(':')), ts, ty),
    }
}

/// A parameter with its attributes.
pub open spec fn s_fn_arg(acc: Seq<TokV>, ts: Seq<TokV>, a: VirtFnArg) -> Seq<TokV> {
    s_fn_arg_kind(s_span(acc, ts, a.attrs), ts, a.kind)
}

/// Parameters, each followed by a comma.
pub open spec fn s_fn_args(acc: Seq<TokV>, ts: Seq<TokV>, list: Seq<VirtFnArg>) -> Seq<TokV>
    decreases list.len(),
{
    if list.len() == 0 {
        acc
    } else {
        s_fn_arg(s_fn_args(acc, ts, list.drop_last()), ts, list.last()).push(pn(','))
    }
}

/// `fn name(params,) output`.
pub open spec fn s_virt_fn(acc: Seq<TokV>, ts: Seq<TokV>, f: VirtFnV) -> Seq<TokV> {
    let a = s_span(acc.push(id("fn"@)), ts, f.name).push(TokV::Open(Delim::Paren));
    s_span(s_fn_args(a, ts, f.inputs).push(TokV::Close(Delim::Paren)), ts, f.output)
}


impl VirtFnArgKind {
    /// Appends `...` or `pat: Type`.
    pub fn to_tokens(&self, toks: &Vec<Tok>, out: &mut Vec<Tok>)
        ensures
            tv(final(out)@) == s_fn_arg_kind(tv(old(out)@), tv(toks@), *self),
    {
        match *self {
            VirtFnArgKind::Variadic(d) => push_span(out, toks, d),
            VirtFnArgKind::Typed { pat, ty } => {
                push_span(out, toks, pat);
                push_punct(out, ':');
                push_span(out, toks, ty);
            },
        }
    }
}

impl VirtFnArg {
    /// Appends the parameter with its attributes.
    pub fn to_tokens(&self, toks: &Vec<Tok>, out: &mut Vec<Tok>)
        ensures
            tv(final(out)@) == s_fn_arg(tv(old(out)@), tv(toks@), *self),
    {
        push_span(out, toks, self.attrs);
        self.kind.to_tokens(toks, out);
    }
}

impl VirtFn {
    /// Appends `fn name(params,) output`, each parameter followed by a comma.
    pub fn to_tokens(&self, toks: &Vec<Tok>, out: &mut Vec<Tok>)
        ensures
            tv(final(out)@) == s_virt_fn(tv(old(out)@), tv(toks@), self@),
    {
        let ghost ts = tv(toks@);
        push_ident(out, "fn");
        push_span(out, toks, self.name);
        push_open(out, Delim::Paren);
        let ghost start = tv(out@);
        let mut i: usize = 0;
        assert(self.inputs@.subrange(0, 0) =~= Seq::<VirtFnArg>::empty());
        while i < self.inputs.len()
            invariant
                i <= self.inputs.len(),
                ts == tv(toks@),
                tv(out@) == s_fn_args(start, ts, self.inputs@.subrange(0, i as int)),
            decreases self.inputs.len() - i,
        {
            self.inputs[i].to_tokens(toks, out);
            push_punct(out, ',');
            assert(self.inputs@.subrange(0, i + 1).drop_last() =~= self.inputs@.subrange(0, i as int));
            i = i + 1;
        }
        assert(self.inputs@.subrange(0, self.inputs@.len() as int) =~= self.inputs@);
        push_close(out, Delim::Paren);
        push_span(out, toks, self.output);
    }
}

} // verus!
