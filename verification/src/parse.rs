//! The grammar of a class declaration:
//!
//! ```text
//! class       = attrs vis ident generics [":" inherited {"," inherited}] [where] "{" items "}"
//! generics    = ["<" {param ","} [param] ">"]
//! inherited   = attrs vis ["virtual"] path
//! ```
//!
//! Each `parse_*` function reads from position `p` up to `end` and returns
//! what it read with the position after it. Its contract is the `p_*` spec
//! function of the same name.

use vstd::prelude::*;
use crate::tokens::{Delim, Tok, TokV, tv};
use crate::scan::{
    Span, Stop, scan, close_of, punct_is, ident_is, open_is, find_stop, find_close, punct_at,
    ident_at, open_at, lemma_scan_bounds, lemma_close_of_bounds,
};
use crate::syntax::{Syntax, valid, is_valid};
use crate::error::{Expected, ParseError, err};
use crate::items::{Items, ItemsV, p_items};

verus! {

/// A result with its view.
pub open spec fn res_view<X: View>(r: Result<(X, usize), ParseError>) -> Result<(X::V, usize), ParseError> {
    match r {
        Ok((x, q)) => Ok((x@, q)),
        Err(e) => Err(e),
    }
}

// ---------------------------------------------------------------- attributes

/// The end of the outer attributes `#[...]` that start at `p`.
pub open spec fn p_attrs_end(ts: Seq<TokV>, p: usize, end: usize) -> Result<usize, ParseError>
    decreases end - p,
{
    if punct_is(ts, p as int, end as int, '#') {
        if open_is(ts, p + 1, end as int, Delim::Bracket) {
            let c = close_of(ts, p + 2, end as int, 0);
            if c < end {
                proof { lemma_close_of_bounds(ts, p + 2, end as int, 0); }
                p_attrs_end(ts, (c + 1) as usize, end)
            } else {
                Err(err(p + 1, Expected::Closing))
            }
        } else {
            Err(err(p + 1, Expected::Group(Delim::Bracket)))
        }
    } else {
        Ok(p)
    }
}

/// Outer attributes: their span, which `syn` must accept unless it is empty.
pub open spec fn p_attrs(ts: Seq<TokV>, p: usize, end: usize) -> Result<(Span, usize), ParseError> {
    match p_attrs_end(ts, p, end) {
        Ok(q) => {
            let span = Span { start: p, end: q };
            if q == p || valid(Syntax::OuterAttrs, ts, span) {
                Ok((span, q))
            } else {
                Err(err(p as int, Expected::Syntax(Syntax::OuterAttrs)))
            }
        },
        Err(e) => Err(e),
    }
}

pub proof fn lemma_attrs_end(ts: Seq<TokV>, p: usize, end: usize)
    ensures
        p_attrs_end(ts, p, end) matches Ok(q) ==> p <= q && (q == p || q <= end),
    decreases end - p,
{
    if punct_is(ts, p as int, end as int, '#') && open_is(ts, p + 1, end as int, Delim::Bracket) {
        let c = close_of(ts, p + 2, end as int, 0);
        lemma_close_of_bounds(ts, p + 2, end as int, 0);
        if c < end {
            lemma_attrs_end(ts, (c + 1) as usize, end);
        }
    }
}

pub fn parse_attrs_end(toks: &Vec<Tok>, p: usize, end: usize) -> (r: Result<usize, ParseError>)
    requires
        p <= end <= toks@.len(),
    ensures
        r == p_attrs_end(tv(toks@), p, end),
    decreases end - p,
{
    if punct_at(toks, p, end, '#') {
        if open_at(toks, p + 1, end, Delim::Bracket) {
            let c = find_close(toks, p + 2, end);
            if c < end {
                parse_attrs_end(toks, c + 1, end)
            } else {
                Err(ParseError { at: p + 1, expected: Expected::Closing })
            }
        } else {
            Err(ParseError { at: p + 1, expected: Expected::Group(Delim::Bracket) })
        }
    } else {
        Ok(p)
    }
}

/// Reads the outer attributes at `p`.
pub fn parse_attrs(toks: &Vec<Tok>, p: usize, end: usize) -> (r: Result<(Span, usize), ParseError>)
    requires
        p <= end <= toks@.len(),
    ensures
        r == p_attrs(tv(toks@), p, end),
        r matches Ok((s, q)) ==> s.start == p && s.end == q && p <= q <= end,
{
    proof { lemma_attrs_end(tv(toks@), p, end); }
    let q = parse_attrs_end(toks, p, end)?;
    let span = Span { start: p, end: q };
    if q == p || is_valid(Syntax::OuterAttrs, toks, span) {
        Ok((span, q))
    } else {
        Err(ParseError { at: p, expected: Expected::Syntax(Syntax::OuterAttrs) })
    }
}

// ---------------------------------------------------------------- visibility

/// A visibility: nothing, `pub`, or `pub` with the parenthesized group after
/// it when `syn` accepts the two together.
pub open spec fn p_vis(ts: Seq<TokV>, p: usize, end: usize) -> (Span, usize) {
    if ident_is(ts, p as int, end as int, "pub"@) {
        if open_is(ts, p + 1, end as int, Delim::Paren) {
            let c = close_of(ts, p + 2, end as int, 0);
            if c < end && valid(Syntax::Visibility, ts, Span { start: p, end: (c + 1) as usize }) {
                (Span { start: p, end: (c + 1) as usize }, (c + 1) as usize)
            } else {
                (Span { start: p, end: (p + 1) as usize }, (p + 1) as usize)
            }
        } else {
            (Span { start: p, end: (p + 1) as usize }, (p + 1) as usize)
        }
    } else {
        (Span { start: p, end: p }, p)
    }
}

/// Reads the visibility at `p`.
pub fn parse_vis(toks: &Vec<Tok>, p: usize, end: usize) -> (r: (Span, usize))
    requires
        p <= end <= toks@.len(),
    ensures
        r == p_vis(tv(toks@), p, end),
        r.0.start == p && r.0.end == r.1 && p <= r.1 <= end,
{
    if ident_at(toks, p, end, "pub") {
        if open_at(toks, p + 1, end, Delim::Paren) {
            let c = find_close(toks, p + 2, end);
            if c < end && is_valid(Syntax::Visibility, toks, Span { start: p, end: c + 1 }) {
                (Span { start: p, end: c + 1 }, c + 1)
            } else {
                (Span { start: p, end: p + 1 }, p + 1)
            }
        } else {
            (Span { start: p, end: p + 1 }, p + 1)
        }
    } else {
        (Span { start: p, end: p }, p)
    }
}

// ---------------------------------------------------------------- identifiers

/// An identifier token that `syn` accepts as an identifier (not a keyword).
pub open spec fn ident_ok(ts: Seq<TokV>, p: int, end: int) -> bool {
    0 <= p < end && p < ts.len() && ts[p] is Ident
        && valid(Syntax::Ident, ts, Span { start: p as usize, end: (p + 1) as usize })
}

pub open spec fn p_ident(ts: Seq<TokV>, p: usize, end: usize) -> Result<(Span, usize), ParseError> {
    if ident_ok(ts, p as int, end as int) {
        Ok((Span { start: p, end: (p + 1) as usize }, (p + 1) as usize))
    } else {
        Err(err(p as int, Expected::Ident))
    }
}

/// Whether the token at `p` is an identifier that is not a keyword.
pub fn ident_ok_at(toks: &Vec<Tok>, p: usize, end: usize) -> (r: bool)
    requires
        end <= toks@.len(),
    ensures
        r == ident_ok(tv(toks@), p as int, end as int),
{
    if p < end {
        let is_ident = match &toks[p] {
            Tok::Ident(_) => true,
            _ => false,
        };
        assert(toks@[p as int]@ == tv(toks@)[p as int]);
        is_ident && is_valid(Syntax::Ident, toks, Span { start: p, end: p + 1 })
    } else {
        false
    }
}

/// Reads an identifier at `p`.
pub fn parse_ident(toks: &Vec<Tok>, p: usize, end: usize) -> (r: Result<(Span, usize), ParseError>)
    requires
        p <= end <= toks@.len(),
    ensures
        r == p_ident(tv(toks@), p, end),
        r matches Ok((s, q)) ==> s.start == p && s.end == q && q == p + 1 && q <= end,
{
    if ident_ok_at(toks, p, end) {
        Ok((Span { start: p, end: p + 1 }, p + 1))
    } else {
        Err(ParseError { at: p, expected: Expected::Ident })
    }
}


/// A list read into an accumulator, with the position after it.
pub open spec fn with_acc<A>(r: Result<usize, ParseError>, acc: A) -> Result<(A, usize), ParseError> {
    match r {
        Ok(q) => Ok((acc, q)),
        Err(e) => Err(e),
    }
}

// ---------------------------------------------------------------- generics

/// The generic parameters of a class: the tokens between `<` and `>`, and
/// the span of each parameter.
pub struct Generics {
    pub list: Span,
    pub params: Vec<Span>,
}

pub struct GenericsV {
    pub list: Span,
    pub params: Seq<Span>,
}

impl View for Generics {
    type V = GenericsV;

    open spec fn view(&self) -> GenericsV {
        GenericsV { list: self.list, params: self.params@ }
    }
}

/// The parameters after `<`, up to the closing `>`, separated by commas,
/// appended to `acc`. A parameter ends at a `,` or `>` outside groups and
/// angle brackets, and `syn` must accept it.
pub open spec fn p_generic_params(ts: Seq<TokV>, p: usize, end: usize, acc: Seq<Span>)
    -> Result<(Seq<Span>, usize), ParseError>
    decreases end - p,
{
    if punct_is(ts, p as int, end as int, '>') {
        Ok((acc, p))
    } else {
        let q = scan(ts, p as int, end as int, 0, 0, Stop::ParamEnd);
        let span = Span { start: p, end: q as usize };
        if q > p && valid(Syntax::GenericParam, ts, span) {
            if punct_is(ts, q, end as int, ',') {
                p_generic_params(ts, (q + 1) as usize, end, acc.push(span))
            } else {
                Ok((acc.push(span), q as usize))
            }
        } else {
            Err(err(p as int, Expected::Syntax(Syntax::GenericParam)))
        }
    }
}

/// Generic parameters: nothing, or `<` parameters `>`.
pub open spec fn p_generics(ts: Seq<TokV>, p: usize, end: usize) -> Result<(GenericsV, usize), ParseError> {
    if punct_is(ts, p as int, end as int, '<') {
        match p_generic_params(ts, (p + 1) as usize, end, seq![]) {
            Ok((params, q)) => if punct_is(ts, q as int, end as int, '>') {
                Ok((GenericsV { list: Span { start: (p + 1) as usize, end: q }, params }, (q + 1) as usize))
            } else {
                Err(err(q as int, Expected::Punct('>')))
            },
            Err(e) => Err(e),
        }
    } else {
        Ok((GenericsV { list: Span { start: p, end: p }, params: seq![] }, p))
    }
}

fn parse_generic_params(toks: &Vec<Tok>, p: usize, end: usize, acc: &mut Vec<Span>)
    -> (r: Result<usize, ParseError>)
    requires
        p <= end <= toks@.len(),
    ensures
        p_generic_params(tv(toks@), p, end, old(acc)@) == with_acc(r, final(acc)@),
        r matches Ok(q) ==> p <= q <= end,
    decreases end - p,
{
    if punct_at(toks, p, end, '>') {
        return Ok(p);
    }
    let q = find_stop(toks, p, end, Stop::ParamEnd);
    let span = Span { start: p, end: q };
    if q > p && is_valid(Syntax::GenericParam, toks, span) {
        acc.push(span);
        if punct_at(toks, q, end, ',') {
            parse_generic_params(toks, q + 1, end, acc)
        } else {
            Ok(q)
        }
    } else {
        Err(ParseError { at: p, expected: Expected::Syntax(Syntax::GenericParam) })
    }
}

impl Generics {
    /// Reads the generic parameters at `p`.
    pub fn parse(toks: &Vec<Tok>, p: usize, end: usize) -> (r: Result<(Generics, usize), ParseError>)
        requires
            p <= end <= toks@.len(),
        ensures
            res_view(r) == p_generics(tv(toks@), p, end),
            r matches Ok((_, q)) ==> p <= q <= end,
    {
        if punct_at(toks, p, end, '<') {
            let mut params: Vec<Span> = Vec::new();
            let q = parse_generic_params(toks, p + 1, end, &mut params)?;
            if punct_at(toks, q, end, '>') {
                Ok((Generics { list: Span { start: p + 1, end: q }, params }, q + 1))
            } else {
                Err(ParseError { at: q, expected: Expected::Punct('>') })
            }
        } else {
            Ok((Generics { list: Span { start: p, end: p }, params: Vec::new() }, p))
        }
    }
}

// ---------------------------------------------------------------- inheritance

/// One class that a class inherits from.
#[derive(Clone, Copy, PartialEq, Eq, Debug, Structural)]
pub struct Inherited {
    pub attrs: Span,
    pub vis: Span,
    pub is_virtual: bool,
    pub path: Span,
}

impl View for Inherited {
    type V = Inherited;

    open spec fn view(&self) -> Inherited {
        *self
    }
}

/// `attrs vis ["virtual"] path`, where the path ends at a `,`, a brace group
/// or `where`, outside groups and angle brackets, and `syn` must accept it.
pub open spec fn p_inherited(ts: Seq<TokV>, p: usize, end: usize) -> Result<(Inherited, usize), ParseError> {
    match p_attrs(ts, p, end) {
        Ok((attrs, p1)) => {
            let (vis, p2) = p_vis(ts, p1, end);
            let is_virtual = ident_is(ts, p2 as int, end as int, "virtual"@);
            let p3: usize = if is_virtual { (p2 + 1) as usize } else { p2 };
            let q = scan(ts, p3 as int, end as int, 0, 0, Stop::PathEnd);
            let path = Span { start: p3, end: q as usize };
            if q > p3 && valid(Syntax::Path, ts, path) {
                Ok((Inherited { attrs, vis, is_virtual, path }, q as usize))
            } else {
                Err(err(p3 as int, Expected::Syntax(Syntax::Path)))
            }
        },
        Err(e) => Err(e),
    }
}

pub proof fn lemma_vis(ts: Seq<TokV>, p: usize, end: usize)
    requires
        p <= end,
    ensures
        p <= p_vis(ts, p, end).1 <= end,
{
    if ident_is(ts, p as int, end as int, "pub"@) && open_is(ts, p + 1, end as int, Delim::Paren) {
        lemma_close_of_bounds(ts, p + 2, end as int, 0);
    }
}

pub proof fn lemma_inherited_advances(ts: Seq<TokV>, p: usize, end: usize)
    requires
        p <= end,
    ensures
        p_inherited(ts, p, end) matches Ok((_, q)) ==> p < q <= end,
{
    lemma_attrs_end(ts, p, end);
    if let Ok((attrs, p1)) = p_attrs(ts, p, end) {
        lemma_vis(ts, p1, end);
        let (vis, p2) = p_vis(ts, p1, end);
        let is_virtual = ident_is(ts, p2 as int, end as int, "virtual"@);
        let p3: usize = if is_virtual { (p2 + 1) as usize } else { p2 };
        lemma_scan_bounds(ts, p3 as int, end as int, 0, 0, Stop::PathEnd);
    }
}

impl Inherited {
    /// Reads one inherited class at `p`.
    pub fn parse(toks: &Vec<Tok>, p: usize, end: usize) -> (r: Result<(Inherited, usize), ParseError>)
        requires
            p <= end <= toks@.len(),
        ensures
            r == p_inherited(tv(toks@), p, end),
            r matches Ok((_, q)) ==> p < q <= end,
    {
        proof { lemma_inherited_advances(tv(toks@), p, end); }
        let (attrs, p1) = parse_attrs(toks, p, end)?;
        let (vis, p2) = parse_vis(toks, p1, end);
        let is_virtual = ident_at(toks, p2, end, "virtual");
        let p3 = if is_virtual { p2 + 1 } else { p2 };
        let q = find_stop(toks, p3, end, Stop::PathEnd);
        let path = Span { start: p3, end: q };
        if q > p3 && is_valid(Syntax::Path, toks, path) {
            Ok((Inherited { attrs, vis, is_virtual, path }, q))
        } else {
            Err(ParseError { at: p3, expected: Expected::Syntax(Syntax::Path) })
        }
    }
}

/// The classes that a class inherits from: the first one, which decides
/// whether the class is built on a virtual base, and the rest.
pub struct Inheritance {
    pub base: Inherited,
    pub rest: Vec<Inherited>,
}

pub struct InheritanceV {
    pub base: Inherited,
    pub rest: Seq<Inherited>,
}

impl View for Inheritance {
    type V = InheritanceV;

    open spec fn view(&self) -> InheritanceV {
        InheritanceV { base: self.base, rest: self.rest@ }
    }
}

/// Inherited classes after the first comma, up to a brace group or `where`,
/// separated by commas, appended to `acc`.
pub open spec fn p_inherited_rest(ts: Seq<TokV>, p: usize, end: usize, acc: Seq<Inherited>)
    -> Result<(Seq<Inherited>, usize), ParseError>
    decreases end - p,
{
    if open_is(ts, p as int, end as int, Delim::Brace) || ident_is(ts, p as int, end as int, "where"@) {
        Ok((acc, p))
    } else {
        match p_inherited(ts, p, end) {
            Ok((i, q)) => {
                if punct_is(ts, q as int, end as int, ',') {
                    proof { lemma_inherited_advances(ts, p, end); }
                    p_inherited_rest(ts, (q + 1) as usize, end, acc.push(i))
                } else {
                    Ok((acc.push(i), q))
                }
            },
            Err(e) => Err(e),
        }
    }
}

/// `:` followed by the inherited classes: the first, then, after a comma,
/// the rest.
pub open spec fn p_inheritance_list(ts: Seq<TokV>, p: usize, end: usize) -> Result<(InheritanceV, usize), ParseError> {
    if punct_is(ts, p as int, end as int, ':') {
        match p_inherited(ts, (p + 1) as usize, end) {
            Ok((base, q)) => if punct_is(ts, q as int, end as int, ',') {
                match p_inherited_rest(ts, (q + 1) as usize, end, seq![]) {
                    Ok((rest, r)) => Ok((InheritanceV { base, rest }, r)),
                    Err(e) => Err(e),
                }
            } else {
                Ok((InheritanceV { base, rest: seq![] }, q))
            },
            Err(e) => Err(e),
        }
    } else {
        Err(err(p as int, Expected::Punct(':')))
    }
}

/// Nothing, or the inheritance list when the next token is `:`.
pub open spec fn p_inheritance(ts: Seq<TokV>, p: usize, end: usize)
    -> Result<(Option<InheritanceV>, usize), ParseError>
{
    if punct_is(ts, p as int, end as int, ':') {
        match p_inheritance_list(ts, p, end) {
            Ok((i, q)) => Ok((Some(i), q)),
            Err(e) => Err(e),
        }
    } else {
        Ok((None, p))
    }
}

pub open spec fn opt_view<X: View>(r: Result<(Option<X>, usize), ParseError>)
    -> Result<(Option<X::V>, usize), ParseError>
{
    match r {
        Ok((Some(x), q)) => Ok((Some(x@), q)),
        Ok((None, q)) => Ok((None, q)),
        Err(e) => Err(e),
    }
}

fn parse_inherited_rest(toks: &Vec<Tok>, p: usize, end: usize, acc: &mut Vec<Inherited>)
    -> (r: Result<usize, ParseError>)
    requires
        p <= end <= toks@.len(),
    ensures
        p_inherited_rest(tv(toks@), p, end, old(acc)@) == with_acc(r, final(acc)@),
        r matches Ok(q) ==> p <= q <= end,
    decreases end - p,
{
    if open_at(toks, p, end, Delim::Brace) || ident_at(toks, p, end, "where") {
        return Ok(p);
    }
    let (i, q) = Inherited::parse(toks, p, end)?;
    acc.push(i);
    if punct_at(toks, q, end, ',') {
        parse_inherited_rest(toks, q + 1, end, acc)
    } else {
        Ok(q)
    }
}

impl Inheritance {
    /// Reads `:` and the inherited classes at `p`.
    pub fn parse(toks: &Vec<Tok>, p: usize, end: usize) -> (r: Result<(Inheritance, usize), ParseError>)
        requires
            p <= end <= toks@.len(),
        ensures
            res_view(r) == p_inheritance_list(tv(toks@), p, end),
            r matches Ok((_, q)) ==> p <= q <= end,
    {
        if !punct_at(toks, p, end, ':') {
            return Err(ParseError { at: p, expected: Expected::Punct(':') });
        }
        let (base, q) = Inherited::parse(toks, p + 1, end)?;
        if punct_at(toks, q, end, ',') {
            let mut rest: Vec<Inherited> = Vec::new();
            let r = parse_inherited_rest(toks, q + 1, end, &mut rest)?;
            Ok((Inheritance { base, rest }, r))
        } else {
            Ok((Inheritance { base, rest: Vec::new() }, q))
        }
    }

    /// Reads the inheritance list at `p`, if the next token is `:`.
    pub fn parse_opt(toks: &Vec<Tok>, p: usize, end: usize) -> (r: Result<(Option<Inheritance>, usize), ParseError>)
        requires
            p <= end <= toks@.len(),
        ensures
            opt_view(r) == p_inheritance(tv(toks@), p, end),
            r matches Ok((_, q)) ==> p <= q <= end,
    {
        if punct_at(toks, p, end, ':') {
            let (i, q) = Inheritance::parse(toks, p, end)?;
            Ok((Some(i), q))
        } else {
            Ok((None, p))
        }
    }
}

// ---------------------------------------------------------------- where clause

/// Nothing, or `where` and the tokens up to the brace group, which `syn`
/// must accept as a `where` clause.
pub open spec fn p_where(ts: Seq<TokV>, p: usize, end: usize) -> Result<(Option<Span>, usize), ParseError> {
    if ident_is(ts, p as int, end as int, "where"@) {
        let q = scan(ts, p as int, end as int, 0, 0, Stop::Brace);
        let span = Span { start: p, end: q as usize };
        if valid(Syntax::WhereClause, ts, span) {
            Ok((Some(span), q as usize))
        } else {
            Err(err(p as int, Expected::Syntax(Syntax::WhereClause)))
        }
    } else {
        Ok((None, p))
    }
}

/// Reads the `where` clause at `p`, if the next token is `where`.
pub fn parse_where(toks: &Vec<Tok>, p: usize, end: usize) -> (r: Result<(Option<Span>, usize), ParseError>)
    requires
        p <= end <= toks@.len(),
    ensures
        r == p_where(tv(toks@), p, end),
        r matches Ok((_, q)) ==> p <= q <= end,
{
    if ident_at(toks, p, end, "where") {
        let q = find_stop(toks, p, end, Stop::Brace);
        let span = Span { start: p, end: q };
        if is_valid(Syntax::WhereClause, toks, span) {
            Ok((Some(span), q))
        } else {
            Err(ParseError { at: p, expected: Expected::Syntax(Syntax::WhereClause) })
        }
    } else {
        Ok((None, p))
    }
}


// ---------------------------------------------------------------- class

/// A class declaration.
pub struct Class {
    pub attrs: Span,
    pub vis: Span,
    pub name: Span,
    pub generics: Generics,
    pub inheritance: Option<Inheritance>,
    pub where_clause: Option<Span>,
    /// The brace group that holds the items, braces included.
    pub items_brace: Span,
    pub items: Items,
}

pub struct ClassV {
    pub attrs: Span,
    pub vis: Span,
    pub name: Span,
    pub generics: GenericsV,
    pub inheritance: Option<InheritanceV>,
    pub where_clause: Option<Span>,
    pub items_brace: Span,
    pub items: ItemsV,
}

impl View for Class {
    type V = ClassV;

    open spec fn view(&self) -> ClassV {
        ClassV {
            attrs: self.attrs,
            vis: self.vis,
            name: self.name,
            generics: self.generics@,
            inheritance: match self.inheritance {
                Some(i) => Some(i@),
                None => None,
            },
            where_clause: self.where_clause,
            items_brace: self.items_brace,
            items: self.items@,
        }
    }
}

/// The brace group at `p` and the items inside it.
pub open spec fn p_body(ts: Seq<TokV>, p: usize, end: usize) -> Result<((Span, ItemsV), usize), ParseError> {
    if open_is(ts, p as int, end as int, Delim::Brace) {
        let c = close_of(ts, p + 1, end as int, 0);
        if c < end {
            match p_items(ts, (p + 1) as usize, c as usize) {
                Ok(items) => Ok(((Span { start: p, end: (c + 1) as usize }, items), (c + 1) as usize)),
                Err(e) => Err(e),
            }
        } else {
            Err(err(p as int, Expected::Closing))
        }
    } else {
        Err(err(p as int, Expected::Group(Delim::Brace)))
    }
}

/// `attrs vis name generics [inheritance] [where] "{" items "}"`.
pub open spec fn p_class(ts: Seq<TokV>, p: usize, end: usize) -> Result<(ClassV, usize), ParseError> {
    match p_attrs(ts, p, end) {
        Err(e) => Err(e),
        Ok((attrs, p1)) => {
            let (vis, p2) = p_vis(ts, p1, end);
            match p_ident(ts, p2, end) {
                Err(e) => Err(e),
                Ok((name, p3)) => match p_generics(ts, p3, end) {
                    Err(e) => Err(e),
                    Ok((generics, p4)) => match p_inheritance(ts, p4, end) {
                        Err(e) => Err(e),
                        Ok((inheritance, p5)) => match p_where(ts, p5, end) {
                            Err(e) => Err(e),
                            Ok((where_clause, p6)) => match p_body(ts, p6, end) {
                                Err(e) => Err(e),
                                Ok(((items_brace, items), q)) => Ok((
                                    ClassV { attrs, vis, name, generics, inheritance, where_clause, items_brace, items },
                                    q,
                                )),
                            },
                        },
                    },
                },
            }
        },
    }
}

fn parse_body(toks: &Vec<Tok>, p: usize, end: usize) -> (r: Result<((Span, Items), usize), ParseError>)
    requires
        p <= end <= toks@.len(),
    ensures
        match r {
            Ok(((s, items), q)) => p_body(tv(toks@), p, end)
                == Ok::<((Span, ItemsV), usize), ParseError>(((s, items@), q)) && q <= end,
            Err(e) => p_body(tv(toks@), p, end) == Err::<((Span, ItemsV), usize), ParseError>(e),
        },
{
    if !open_at(toks, p, end, Delim::Brace) {
        return Err(ParseError { at: p, expected: Expected::Group(Delim::Brace) });
    }
    let c = find_close(toks, p + 1, end);
    if c >= end {
        return Err(ParseError { at: p, expected: Expected::Closing });
    }
    let items = Items::parse(toks, p + 1, c)?;
    Ok(((Span { start: p, end: c + 1 }, items), c + 1))
}

impl Class {
    /// Reads a class declaration at `p`.
    pub fn parse(toks: &Vec<Tok>, p: usize, end: usize) -> (r: Result<(Class, usize), ParseError>)
        requires
            p <= end <= toks@.len(),
        ensures
            res_view(r) == p_class(tv(toks@), p, end),
            r matches Ok((_, q)) ==> q <= end,
    {
        let (attrs, p1) = parse_attrs(toks, p, end)?;
        let (vis, p2) = parse_vis(toks, p1, end);
        let (name, p3) = parse_ident(toks, p2, end)?;
        let (generics, p4) = Generics::parse(toks, p3, end)?;
        let (inheritance, p5) = Inheritance::parse_opt(toks, p4, end)?;
        let (where_clause, p6) = parse_where(toks, p5, end)?;
        let ((items_brace, items), q) = parse_body(toks, p6, end)?;
        let class = Class { attrs, vis, name, generics, inheritance, where_clause, items_brace, items };
        assert(class@.inheritance == opt_view(Ok::<(Option<Inheritance>, usize), ParseError>((inheritance, p5)))->Ok_0.0);
        Ok((class, q))
    }
}

} // verus!
