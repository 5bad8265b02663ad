//! The items inside the braces of a class:
//!
//! ```text
//! item  = attrs vis kind ";"
//! kind  = "virtual" "use" use | "virtual" virt_fn | "use" use | field
//! use   = generic_argument "as" ident
//! ```

use vstd::prelude::*;
use crate::tokens::{Tok, TokV, tv};
use crate::emit::{id, pn, sep, s_span, push_span, push_punct, push_sep, push_ident};
use crate::scan::{Span, Stop, scan, punct_is, ident_is, find_stop, punct_at, ident_at, lemma_scan_bounds};
use crate::syntax::{Syntax, valid, is_valid};
use crate::error::{Expected, ParseError, err};
use crate::parse::{p_attrs, p_vis, p_ident, ident_ok, parse_attrs, parse_vis, parse_ident, ident_ok_at,
    lemma_attrs_end, lemma_vis};

pub mod non_virt;
pub mod virt;
pub mod reread;

verus! {

/// `use Type as name`: a field of `PhantomData<Type>` (or `Usage<Type>` in a
/// virtual function table) named `name`.
#[derive(Clone, Copy, PartialEq, Eq, Debug, Structural)]
pub struct Use {
    pub what: Span,
    pub field: Span,
}

/// `generic_argument "as" ident`, where the argument ends at `as` outside
/// groups and angle brackets and `syn` must accept it.
pub open spec fn p_use(ts: Seq<TokV>, p: usize, end: usize) -> Result<(Use, usize), ParseError> {
    let q = scan(ts, p as int, end as int, 0, 0, Stop::As);
    let what = Span { start: p, end: q as usize };
    if q > p && valid(Syntax::GenericArgument, ts, what) {
        if ident_is(ts, q, end as int, "as"@) {
            match p_ident(ts, (q + 1) as usize, end) {
                Ok((field, r)) => Ok((Use { what, field }, r)),
                Err(e) => Err(e),
            }
        } else {
            Err(err(q, Expected::As))
        }
    } else {
        Err(err(p as int, Expected::Syntax(Syntax::GenericArgument)))
    }
}

pub proof fn lemma_use(ts: Seq<TokV>, p: usize, end: usize)
    requires
        p <= end,
    ensures
        p_use(ts, p, end) matches Ok((_, q)) ==> p < q <= end,
{
    lemma_scan_bounds(ts, p as int, end as int, 0, 0, Stop::As);
}

impl Use {
    /// Reads the part of a `use` item after the keyword.
    pub fn parse(toks: &Vec<Tok>, p: usize, end: usize) -> (r: Result<(Use, usize), ParseError>)
        requires
            p <= end <= toks@.len(),
        ensures
            r == p_use(tv(toks@), p, end),
            r matches Ok((_, q)) ==> p < q <= end,
    {
        proof { lemma_use(tv(toks@), p, end); }
        let q = find_stop(toks, p, end, Stop::As);
        let what = Span { start: p, end: q };
        if q > p && is_valid(Syntax::GenericArgument, toks, what) {
            if ident_at(toks, q, end, "as") {
                let (field, r) = parse_ident(toks, q + 1, end)?;
                Ok((Use { what, field }, r))
            } else {
                Err(ParseError { at: q, expected: Expected::As })
            }
        } else {
            Err(ParseError { at: p, expected: Expected::Syntax(Syntax::GenericArgument) })
        }
    }
}

/// All items of a class, split by where they are stored, each in the order
/// of the declaration.
pub struct Items {
    pub virt: Vec<virt::Item>,
    pub non_virt: Vec<non_virt::Item>,
}

pub struct ItemsV {
    pub virt: Seq<virt::ItemV>,
    pub non_virt: Seq<non_virt::Item>,
}

impl View for Items {
    type V = ItemsV;

    open spec fn view(&self) -> ItemsV {
        ItemsV { virt: self.virt@.map_values(|i: virt::Item| i@), non_virt: self.non_virt@ }
    }
}

/// One item, virtual or not.
pub enum AnyItem {
    Virt(virt::Item),
    NonVirt(non_virt::Item),
}

pub enum AnyItemV {
    Virt(virt::ItemV),
    NonVirt(non_virt::Item),
}

impl View for AnyItem {
    type V = AnyItemV;

    open spec fn view(&self) -> AnyItemV {
        match self {
            AnyItem::Virt(i) => AnyItemV::Virt(i@),
            AnyItem::NonVirt(i) => AnyItemV::NonVirt(*i),
        }
    }
}

/// The declaration of an item after its attributes and visibility.
pub open spec fn p_item_kind(ts: Seq<TokV>, p: usize, end: usize, attrs: Span, vis: Span)
    -> Result<(AnyItemV, usize), ParseError>
{
    if ident_is(ts, p as int, end as int, "virtual"@) {
        if ident_is(ts, p + 1, end as int, "use"@) {
            match p_use(ts, (p + 2) as usize, end) {
                Ok((u, q)) => Ok((AnyItemV::Virt(virt::ItemV { attrs, vis, kind: virt::KindV::Use(u) }), q)),
                Err(e) => Err(e),
            }
        } else {
            match virt::p_virt_fn(ts, (p + 1) as usize, end) {
                Ok((f, q)) => Ok((AnyItemV::Virt(virt::ItemV { attrs, vis, kind: virt::KindV::Fn(f) }), q)),
                Err(e) => Err(e),
            }
        }
    } else if ident_is(ts, p as int, end as int, "use"@) {
        match p_use(ts, (p + 1) as usize, end) {
            Ok((u, q)) => Ok((AnyItemV::NonVirt(non_virt::Item { attrs, vis, kind: non_virt::Kind::Use(u) }), q)),
            Err(e) => Err(e),
        }
    } else if ident_ok(ts, p as int, end as int) {
        match non_virt::p_field(ts, p, end) {
            Ok((f, q)) => Ok((AnyItemV::NonVirt(non_virt::Item { attrs, vis, kind: non_virt::Kind::Field(f) }), q)),
            Err(e) => Err(e),
        }
    } else {
        Err(err(p as int, Expected::ItemStart))
    }
}

/// `attrs vis kind ";"`.
pub open spec fn p_item(ts: Seq<TokV>, p: usize, end: usize) -> Result<(AnyItemV, usize), ParseError> {
    match p_attrs(ts, p, end) {
        Ok((attrs, p1)) => {
            let (vis, p2) = p_vis(ts, p1, end);
            match p_item_kind(ts, p2, end, attrs, vis) {
                Ok((item, q)) => if punct_is(ts, q as int, end as int, ';') {
                    Ok((item, (q + 1) as usize))
                } else {
                    Err(err(q as int, Expected::Punct(';')))
                },
                Err(e) => Err(e),
            }
        },
        Err(e) => Err(e),
    }
}

pub proof fn lemma_item(ts: Seq<TokV>, p: usize, end: usize)
    requires
        p <= end,
    ensures
        p_item(ts, p, end) matches Ok((_, q)) ==> p < q <= end,
{
    lemma_attrs_end(ts, p, end);
    if let Ok((attrs, p1)) = p_attrs(ts, p, end) {
        lemma_vis(ts, p1, end);
        let (vis, p2) = p_vis(ts, p1, end);
        if p2 + 2 <= end {
            lemma_use(ts, (p2 + 2) as usize, end);
        }
        if p2 + 1 <= end {
            lemma_use(ts, (p2 + 1) as usize, end);
            virt::lemma_virt_fn(ts, (p2 + 1) as usize, end);
        }
        non_virt::lemma_field(ts, p2, end);
    }
}

/// Items up to `end`, added to `acc`.
pub open spec fn p_items_from(ts: Seq<TokV>, p: usize, end: usize, acc: ItemsV) -> Result<ItemsV, ParseError>
    decreases end - p,
{
    if p >= end {
        Ok(acc)
    } else {
        match p_item(ts, p, end) {
            Ok((item, q)) => {
                proof { lemma_item(ts, p, end); }
                match item {
                    AnyItemV::Virt(i) => p_items_from(ts, q, end, ItemsV { virt: acc.virt.push(i), non_virt: acc.non_virt }),
                    AnyItemV::NonVirt(i) => p_items_from(ts, q, end, ItemsV { virt: acc.virt, non_virt: acc.non_virt.push(i) }),
                }
            },
            Err(e) => Err(e),
        }
    }
}

/// The items between `p` and `end`, the inside of a class's braces.
pub open spec fn p_items(ts: Seq<TokV>, p: usize, end: usize) -> Result<ItemsV, ParseError> {
    p_items_from(ts, p, end, ItemsV { virt: seq![], non_virt: seq![] })
}

fn parse_item_kind(toks: &Vec<Tok>, p: usize, end: usize, attrs: Span, vis: Span)
    -> (r: Result<(AnyItem, usize), ParseError>)
    requires
        p <= end <= toks@.len(),
    ensures
        match r {
            Ok((i, q)) => p_item_kind(tv(toks@), p, end, attrs, vis) == Ok::<(AnyItemV, usize), ParseError>((i@, q)),
            Err(e) => p_item_kind(tv(toks@), p, end, attrs, vis) == Err::<(AnyItemV, usize), ParseError>(e),
        },
{
    if ident_at(toks, p, end, "virtual") {
        if ident_at(toks, p + 1, end, "use") {
            let (u, q) = Use::parse(toks, p + 2, end)?;
            Ok((AnyItem::Virt(virt::Item { attrs, vis, kind: virt::Kind::Use(u) }), q))
        } else {
            let (f, q) = virt::VirtFn::parse(toks, p + 1, end)?;
            Ok((AnyItem::Virt(virt::Item { attrs, vis, kind: virt::Kind::Fn(f) }), q))
        }
    } else if ident_at(toks, p, end, "use") {
        let (u, q) = Use::parse(toks, p + 1, end)?;
        Ok((AnyItem::NonVirt(non_virt::Item { attrs, vis, kind: non_virt::Kind::Use(u) }), q))
    } else if ident_ok_at(toks, p, end) {
        let (f, q) = non_virt::Field::parse(toks, p, end)?;
        Ok((AnyItem::NonVirt(non_virt::Item { attrs, vis, kind: non_virt::Kind::Field(f) }), q))
    } else {
        Err(ParseError { at: p, expected: Expected::ItemStart })
    }
}

fn parse_item(toks: &Vec<Tok>, p: usize, end: usize) -> (r: Result<(AnyItem, usize), ParseError>)
    requires
        p <= end <= toks@.len(),
    ensures
        match r {
            Ok((i, q)) => p_item(tv(toks@), p, end) == Ok::<(AnyItemV, usize), ParseError>((i@, q)),
            Err(e) => p_item(tv(toks@), p, end) == Err::<(AnyItemV, usize), ParseError>(e),
        },
        r matches Ok((_, q)) ==> p < q <= end,
{
    proof { lemma_item(tv(toks@), p, end); }
    let (attrs, p1) = parse_attrs(toks, p, end)?;
    let (vis, p2) = parse_vis(toks, p1, end);
    let (item, q) = parse_item_kind(toks, p2, end, attrs, vis)?;
    if punct_at(toks, q, end, ';') {
        Ok((item, q + 1))
    } else {
        Err(ParseError { at: q, expected: Expected::Punct(';') })
    }
}

fn parse_items_from(toks: &Vec<Tok>, p: usize, end: usize, acc: &mut Items) -> (r: Result<(), ParseError>)
    requires
        p <= end <= toks@.len(),
    ensures
        p_items_from(tv(toks@), p, end, old(acc)@) == match r {
            Ok(()) => Ok::<ItemsV, ParseError>(final(acc)@),
            Err(e) => Err::<ItemsV, ParseError>(e),
        },
    decreases end - p,
{
    if p >= end {
        return Ok(());
    }
    let (item, q) = parse_item(toks, p, end)?;
    match item {
        AnyItem::Virt(i) => {
            let ghost before = acc.virt@;
            acc.virt.push(i);
            assert(acc.virt@.map_values(|i: virt::Item| i@) =~= before.map_values(|i: virt::Item| i@).push(i@));
        },
        AnyItem::NonVirt(i) => {
            acc.non_virt.push(i);
        },
    }
    parse_items_from(toks, q, end, acc)
}

impl Items {
    /// Reads the items between `p` and `end`, the inside of a class's braces.
    pub fn parse(toks: &Vec<Tok>, p: usize, end: usize) -> (r: Result<Items, ParseError>)
        requires
            p <= end <= toks@.len(),
        ensures
            match r {
                Ok(items) => p_items(tv(toks@), p, end) == Ok::<ItemsV, ParseError>(items@),
                Err(e) => p_items(tv(toks@), p, end) == Err::<ItemsV, ParseError>(e),
            },
    {
        let mut items = Items { virt: Vec::new(), non_virt: Vec::new() };
        assert(items@.virt =~= Seq::<virt::ItemV>::empty());
        assert(items@.non_virt =~= Seq::<non_virt::Item>::empty());
        parse_items_from(toks, p, end, &mut items)?;
        Ok(items)
    }
}

/// `name: ::core::marker::PhantomData<Type>`.
pub open spec fn s_use(acc: Seq<TokV>, ts: Seq<TokV>, u: Use) -> Seq<TokV> {
    let a = sep(s_span(acc, ts, u.field).push(pn(':')));
    let b = sep(sep(a.push(id("core"@))).push(id("marker"@))).push(id("PhantomData"@)).push(pn('<'));
    s_span(b, ts, u.what).push(pn('>'))
}


impl Use {
    /// Appends the field for a `use` item: `name: ::core::marker::PhantomData<Type>`.
    pub fn to_tokens(&self, toks: &Vec<Tok>, out: &mut Vec<Tok>)
        ensures
            tv(final(out)@) == s_use(tv(old(out)@), tv(toks@), *self),
    {
        push_span(out, toks, self.field);
        push_punct(out, ':');
        push_sep(out);
        push_ident(out, "core");
        push_sep(out);
        push_ident(out, "marker");
        push_sep(out);
        push_ident(out, "PhantomData");
        push_punct(out, '<');
        push_span(out, toks, self.what);
        push_punct(out, '>');
    }
}

} // verus!
