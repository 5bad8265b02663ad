//! Items of a class that are stored in every instance: data fields, and
//! `use` items that mark a type as used.

use vstd::prelude::*;
use crate::tokens::{Tok, TokV, tv};
use crate::scan::{Span, Stop, scan, punct_is, find_stop, punct_at, lemma_scan_bounds};
use crate::syntax::{Syntax, valid, is_valid};
use crate::error::{Expected, ParseError, err};
use crate::parse::p_ident;
use crate::items::{Use, s_use};
use crate::emit::{pn, s_span, push_span, push_punct};

verus! {

/// A data field `name: Type`.
#[derive(Clone, Copy, PartialEq, Eq, Debug, Structural)]
pub struct Field {
    pub name: Span,
    pub ty: Span,
}

/// What a non-virtual item declares.
#[derive(Clone, Copy, PartialEq, Eq, Debug, Structural)]
pub enum Kind {
    Field(Field),
    Use(Use),
}

/// A non-virtual item with its attributes and visibility.
#[derive(Clone, Copy, PartialEq, Eq, Debug, Structural)]
pub struct Item {
    pub attrs: Span,
    pub vis: Span,
    pub kind: Kind,
}

/// `name ":" type`, where the type ends at `;` outside groups and angle
/// brackets and `syn` must accept it.
pub open spec fn p_field(ts: Seq<TokV>, p: usize, end: usize) -> Result<(Field, usize), ParseError> {
    match p_ident(ts, p, end) {
        Ok((name, n)) => if punct_is(ts, n as int, end as int, ':') {
            let q = scan(ts, n + 1, end as int, 0, 0, Stop::Semi);
            let ty = Span { start: (n + 1) as usize, end: q as usize };
            if q > n + 1 && valid(Syntax::Type, ts, ty) {
                Ok((Field { name, ty }, q as usize))
            } else {
                Err(err(n + 1, Expected::Syntax(Syntax::Type)))
            }
        } else {
            Err(err(n as int, Expected::Punct(':')))
        },
        Err(e) => Err(e),
    }
}

pub proof fn lemma_field(ts: Seq<TokV>, p: usize, end: usize)
    requires
        p <= end,
    ensures
        p_field(ts, p, end) matches Ok((_, q)) ==> p < q <= end,
{
    if let Ok((name, n)) = p_ident(ts, p, end) {
        lemma_scan_bounds(ts, n + 1, end as int, 0, 0, Stop::Semi);
    }
}

impl Field {
    /// Reads a field at `p`.
    pub fn parse(toks: &Vec<Tok>, p: usize, end: usize) -> (r: Result<(Field, usize), ParseError>)
        requires
            p <= end <= toks@.len(),
        ensures
            r == p_field(tv(toks@), p, end),
            r matches Ok((_, q)) ==> p < q <= end,
    {
        proof { lemma_field(tv(toks@), p, end); }
        let (name, n) = crate::parse::parse_ident(toks, p, end)?;
        if punct_at(toks, n, end, ':') {
            let q = find_stop(toks, n + 1, end, Stop::Semi);
            let ty = Span { start: n + 1, end: q };
            if q > n + 1 && is_valid(Syntax::Type, toks, ty) {
                Ok((Field { name, ty }, q))
            } else {
                Err(ParseError { at: n + 1, expected: Expected::Syntax(Syntax::Type) })
            }
        } else {
            Err(ParseError { at: n, expected: Expected::Punct(':') })
        }
    }
}

/// `name: Type`.
pub open spec fn s_field(acc: Seq<TokV>, ts: Seq<TokV>, f: Field) -> Seq<TokV> {
    s_span(s_span(acc, ts, f.name).push(pn(':')), ts, f.ty)
}

/// A non-virtual item as a struct field: its attributes, visibility, then
/// the field or the use.
#[verifier::opaque]
pub open spec fn s_non_virt_item(acc: Seq<TokV>, ts: Seq<TokV>, it: Item) -> Seq<TokV> {
    let a = s_span(s_span(acc, ts, it.attrs), ts, it.vis);
    match it.kind {
        Kind::Field(f) => s_field(a, ts, f),
        Kind::Use(u) => s_use(a, ts, u),
    }
}

/// Non-virtual items as fields, each followed by a comma.
pub open spec fn s_non_virt_items(acc: Seq<TokV>, ts: Seq<TokV>, list: Seq<Item>) -> Seq<TokV>
    decreases list.len(),
{
    if list.len() == 0 {
        acc
    } else {
        s_non_virt_item(s_non_virt_items(acc, ts, list.drop_last()), ts, list.last()).push(pn(','))
    }
}


impl Field {
    /// Appends `name: Type`.
    pub fn to_tokens(&self, toks: &Vec<Tok>, out: &mut Vec<Tok>)
        ensures
            tv(final(out)@) == s_field(tv(old(out)@), tv(toks@), *self),
    {
        push_span(out, toks, self.name);
        push_punct(out, ':');
        push_span(out, toks, self.ty);
    }
}

impl Item {
    /// Appends the item as a struct field, with its attributes and visibility.
    pub fn to_tokens(&self, toks: &Vec<Tok>, out: &mut Vec<Tok>)
        ensures
            tv(final(out)@) == s_non_virt_item(tv(old(out)@), tv(toks@), *self),
    {
        proof { reveal(s_non_virt_item); }
        push_span(out, toks, self.attrs);
        push_span(out, toks, self.vis);
        match self.kind {
            Kind::Field(f) => f.to_tokens(toks, out),
            Kind::Use(u) => u.to_tokens(toks, out),
        }
    }
}

} // verus!
