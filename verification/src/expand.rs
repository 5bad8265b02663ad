//! Reading a whole invocation of the class macro, and expanding the class
//! into Rust items.
//!
//! A class without virtual items and without a virtual base becomes one
//! `#[repr(C)]` struct whose first fields hold the inherited classes. Any
//! other class becomes a struct `Name { vtable, data }`, a virtual function
//! table `NameVt` and a data struct `NameData`; a virtual base is embedded
//! at the start of both.

use vstd::prelude::*;
use crate::tokens::{Delim, Spacing, Tok, TokV, tv};
use crate::scan::{Span, is_punct, is_ident, punct_at, punct_is, open_is, joined_to_previous, punct_tok};
use crate::syntax::{Syntax, valid, is_valid};
use crate::error::{Expected, ParseError, err};
use crate::parse::{Class, ClassV, Inherited, p_class, p_attrs_end, parse_attrs_end};
use crate::naming::{sep_at, field_name, field_name_of};
use crate::emit::{
    id, pn, pj, sep, span_ok, span_of, s_span, push_tok, push_ident, push_ident_chars, push_punct, push_joint,
    push_sep, push_open, push_close, push_toks, push_span,
};
use crate::items::{non_virt, virt};
use crate::items::non_virt::s_non_virt_items;

verus! {

// ---------------------------------------------------------------- invocation

/// The input of the class macro: the path of the runtime crate, then a
/// class declaration. `generic_args` are the class's generic parameters
/// written as arguments: `<'a: 'b, T, const N: usize,>` gives
/// `<'a: 'b, T, const N: usize,>` for lifetimes and constants as declared,
/// and only the attributes and name of each type parameter.
pub struct Invocation {
    pub tokens: Vec<Tok>,
    pub crate_path: Span,
    pub class: Class,
    pub generic_args: Vec<Tok>,
}

pub struct InvocationV {
    pub tokens: Seq<TokV>,
    pub crate_path: Span,
    pub class: ClassV,
    pub generic_args: Seq<TokV>,
}

impl View for Invocation {
    type V = InvocationV;

    open spec fn view(&self) -> InvocationV {
        InvocationV {
            tokens: tv(self.tokens@),
            crate_path: self.crate_path,
            class: self.class@,
            generic_args: tv(self.generic_args@),
        }
    }
}

/// Inside `a` open angle brackets at `j`: the position just after the `>`
/// that closes the outermost of them, outside groups; `end` when there is
/// none. Angle brackets count as `scan` counts them.
pub open spec fn angle_close(ts: Seq<TokV>, j: int, end: int, g: nat, a: nat) -> int
    decreases end - j,
{
    if j >= end || j < 0 || j >= ts.len() {
        end
    } else {
        match ts[j] {
            TokV::Open(_) => angle_close(ts, j + 1, end, g + 1, a),
            TokV::Close(_) => angle_close(ts, j + 1, end, if g > 0 { (g - 1) as nat } else { 0 }, a),
            TokV::Punct(c, _) => if g == 0 && c == '<' {
                angle_close(ts, j + 1, end, g, a + 1)
            } else if g == 0 && c == '>' && !joined_to_previous(ts, j) {
                if a <= 1 { j + 1 } else { angle_close(ts, j + 1, end, g, (a - 1) as nat) }
            } else {
                angle_close(ts, j + 1, end, g, a)
            },
            _ => angle_close(ts, j + 1, end, g, a),
        }
    }
}

pub proof fn lemma_angle_close_bounds(ts: Seq<TokV>, j: int, end: int, g: nat, a: nat)
    requires
        0 <= j,
    ensures
        j <= end ==> j <= angle_close(ts, j, end, g, a) <= end,
        j > end ==> angle_close(ts, j, end, g, a) == end,
    decreases end - j,
{
    if j < end && j < ts.len() {
        match ts[j] {
            TokV::Open(_) => lemma_angle_close_bounds(ts, j + 1, end, g + 1, a),
            TokV::Close(_) => lemma_angle_close_bounds(ts, j + 1, end, if g > 0 { (g - 1) as nat } else { 0 }, a),
            TokV::Punct(c, _) => if g == 0 && c == '<' {
                lemma_angle_close_bounds(ts, j + 1, end, g, a + 1)
            } else if g == 0 && c == '>' && !joined_to_previous(ts, j) {
                if a > 1 { lemma_angle_close_bounds(ts, j + 1, end, g, (a - 1) as nat) }
            } else {
                lemma_angle_close_bounds(ts, j + 1, end, g, a)
            },
            _ => lemma_angle_close_bounds(ts, j + 1, end, g, a),
        }
    }
}

/// A `<` at `j` that opens generic arguments after a path segment: not the
/// start of `<=` or `<<=`.
pub open spec fn opens_args(ts: Seq<TokV>, j: int, end: int) -> bool {
    &&& punct_is(ts, j, end, '<')
    &&& !(ts[j] == TokV::Punct('<', Spacing::Joint) && j + 1 < ts.len() && (is_punct(ts[j + 1], '=')
        || (ts[j + 1] == TokV::Punct('<', Spacing::Joint) && j + 2 < ts.len() && is_punct(ts[j + 2], '='))))
}

/// After a path segment's identifier at `j - 1`: where its generic
/// arguments, `<...>` or `::<...>`, end, or `j` when it has none.
pub open spec fn segment_args_end(ts: Seq<TokV>, j: int, end: int) -> int {
    if opens_args(ts, j, end) {
        angle_close(ts, j + 1, end, 0, 1)
    } else if sep_at(ts, j, end) && punct_is(ts, j + 2, end, '<') {
        angle_close(ts, j + 3, end, 0, 1)
    } else {
        j
    }
}

/// The rest of a path after a segment's identifier at `p - 1`: the
/// segment's generic arguments, then `::` and another segment, as long as
/// the `::` is not followed by a parenthesis group. A `::` followed by no
/// identifier is taken in, for `syn` to refuse.
pub open spec fn path_tail(ts: Seq<TokV>, p: usize, end: usize) -> usize
    decreases end - p,
{
    if p > end {
        p
    } else {
        let q = segment_args_end(ts, p as int, end as int);
        proof {
            lemma_angle_close_bounds(ts, p + 1, end as int, 0, 1);
            lemma_angle_close_bounds(ts, p + 3, end as int, 0, 1);
        }
        if q < p || q > end {
            p
        } else if sep_at(ts, q, end as int) && !open_is(ts, q + 2, end as int, Delim::Paren) {
            if q + 2 < end && q + 2 < ts.len() && ts[q + 2] is Ident {
                path_tail(ts, (q + 3) as usize, end)
            } else {
                (q + 2) as usize
            }
        } else {
            q as usize
        }
    }
}

/// The path of the runtime crate, which `syn` must accept as a path: an
/// optional `::`, then segments as `path_tail` delimits them; an
/// identifier may be `$crate`.
pub open spec fn p_crate_path(ts: Seq<TokV>, p: usize, end: usize) -> Result<(Span, usize), ParseError> {
    let p1: usize = if sep_at(ts, p as int, end as int) { (p + 2) as usize } else { p };
    if p1 < end && p1 < ts.len() && ts[p1 as int] is Ident {
        let q = path_tail(ts, (p1 + 1) as usize, end);
        let span = Span { start: p, end: q };
        if valid(Syntax::Path, ts, span) {
            Ok((span, q))
        } else {
            Err(err(p as int, Expected::Syntax(Syntax::Path)))
        }
    } else {
        Err(err(p1 as int, Expected::Ident))
    }
}

/// A whole invocation: the runtime crate's path, a class, nothing after.
pub open spec fn p_invocation(ts: Seq<TokV>) -> Result<(Span, ClassV), ParseError> {
    let end = ts.len() as usize;
    match p_crate_path(ts, 0, end) {
        Ok((cp, q)) => match p_class(ts, q, end) {
            Ok((c, r)) => if r == end {
                Ok((cp, c))
            } else {
                Err(err(r as int, Expected::End))
            },
            Err(e) => Err(e),
        },
        Err(e) => Err(e),
    }
}

/// A generic parameter written as an argument: a lifetime or constant
/// parameter as declared, a type parameter as its attributes and name.
pub open spec fn param_arg(ts: Seq<TokV>, s: Span) -> Seq<TokV> {
    if span_ok(ts, s) {
        match p_attrs_end(ts, s.start, s.end) {
            Ok(a) => if a < s.end && a < ts.len() && !is_punct(ts[a as int], '\'')
                && !is_ident(ts[a as int], "const"@) {
                span_of(ts, Span { start: s.start, end: a }).push(ts[a as int])
            } else {
                span_of(ts, s)
            },
            Err(_) => span_of(ts, s),
        }
    } else {
        seq![]
    }
}

/// The arguments for `params`, each followed by a comma, after `acc`.
pub open spec fn args_from(acc: Seq<TokV>, ts: Seq<TokV>, params: Seq<Span>) -> Seq<TokV>
    decreases params.len(),
{
    if params.len() == 0 {
        acc
    } else {
        (args_from(acc, ts, params.drop_last()) + param_arg(ts, params.last())).push(pn(','))
    }
}

/// `<` the arguments `>`.
pub open spec fn generic_args_of(ts: Seq<TokV>, params: Seq<Span>) -> Seq<TokV> {
    args_from(seq![pn('<')], ts, params).push(pn('>'))
}

/// The position just after the `>` that closes the angle brackets open at
/// `j`.
fn find_angle_close(toks: &Vec<Tok>, j: usize, end: usize) -> (r: usize)
    requires
        1 <= j <= end <= toks@.len(),
    ensures
        r == angle_close(tv(toks@), j as int, end as int, 0, 1),
        j <= r <= end,
{
    let ghost ts = tv(toks@);
    proof { lemma_angle_close_bounds(ts, j as int, end as int, 0, 1); }
    let mut k = j;
    let mut g: usize = 0;
    let mut a: usize = 1;
    while k < end
        invariant
            j <= k <= end <= toks@.len(),
            ts == tv(toks@),
            g <= k,
            1 <= j,
            1 <= a <= k - j + 1,
            angle_close(ts, k as int, end as int, g as nat, a as nat) == angle_close(ts, j as int, end as int, 0, 1),
        decreases end - k,
    {
        assert(toks@[k as int]@ == ts[k as int]);
        match &toks[k] {
            Tok::Open(_) => {
                g = g + 1;
            },
            Tok::Close(_) => {
                if g > 0 {
                    g = g - 1;
                }
            },
            Tok::Punct(c, _) => {
                if g == 0 && *c == '<' {
                    assert(a + 1 <= k + 1);
                    a = a + 1;
                } else if g == 0 && *c == '>' && !prev_joins(toks, k) {
                    if a <= 1 {
                        return k + 1;
                    }
                    a = a - 1;
                }
            },
            _ => {},
        }
        k = k + 1;
    }
    k
}

/// The token before `j` joins with it into `->` or `=>`.
fn prev_joins(toks: &Vec<Tok>, j: usize) -> (r: bool)
    requires
        j < toks@.len(),
    ensures
        r == joined_to_previous(tv(toks@), j as int),
{
    if j == 0 {
        return false;
    }
    assert(toks@[j - 1]@ == tv(toks@)[j - 1]);
    match &toks[j - 1] {
        Tok::Punct(c, Spacing::Joint) => *c == '-' || *c == '=',
        _ => false,
    }
}

/// Whether the `<` at `j` opens generic arguments.
fn opens_args_at(toks: &Vec<Tok>, j: usize, end: usize) -> (r: bool)
    requires
        end <= toks@.len(),
    ensures
        r == opens_args(tv(toks@), j as int, end as int),
{
    let ghost ts = tv(toks@);
    if !punct_at(toks, j, end, '<') {
        return false;
    }
    assert(toks@[j as int]@ == ts[j as int]);
    let joint = match &toks[j] {
        Tok::Punct(_, Spacing::Joint) => true,
        _ => false,
    };
    if !joint || j + 1 >= toks.len() {
        return true;
    }
    assert(toks@[j + 1]@ == ts[j + 1]);
    if punct_tok(&toks[j + 1], '=') {
        return false;
    }
    let second = match &toks[j + 1] {
        Tok::Punct(c, Spacing::Joint) => *c == '<',
        _ => false,
    };
    if second && j + 2 < toks.len() {
        assert(toks@[j + 2]@ == ts[j + 2]);
        !punct_tok(&toks[j + 2], '=')
    } else {
        true
    }
}

fn segment_args_end_at(toks: &Vec<Tok>, j: usize, end: usize) -> (r: usize)
    requires
        j <= end <= toks@.len(),
    ensures
        r == segment_args_end(tv(toks@), j as int, end as int),
        j <= r <= end,
{
    if opens_args_at(toks, j, end) {
        find_angle_close(toks, j + 1, end)
    } else if end - j > 2 && crate::naming::joint_pair(toks, j, ':', ':') && punct_at(toks, j + 2, end, '<') {
        find_angle_close(toks, j + 3, end)
    } else {
        if end - j > 1 {
            proof {
                if end - j == 2 {
                    assert(!punct_is(tv(toks@), j + 2, end as int, '<'));
                }
            }
        }
        j
    }
}

fn parse_path_tail(toks: &Vec<Tok>, p: usize, end: usize) -> (r: usize)
    requires
        p <= end <= toks@.len(),
    ensures
        r == path_tail(tv(toks@), p, end),
        p <= r <= end,
    decreases end - p,
{
    let ghost ts = tv(toks@);
    let q = segment_args_end_at(toks, p, end);
    proof {
        lemma_angle_close_bounds(ts, p + 1, end as int, 0, 1);
        lemma_angle_close_bounds(ts, p + 3, end as int, 0, 1);
    }
    if end - q > 1 && crate::naming::joint_pair(toks, q, ':', ':') && !crate::scan::open_at(toks, q + 2, end, Delim::Paren) {
        if q + 2 < end && is_ident_tok(&toks[q + 2]) {
            assert(toks@[q + 2]@ == ts[q + 2]);
            parse_path_tail(toks, q + 3, end)
        } else {
            if q + 2 < end {
                assert(toks@[q + 2]@ == ts[q + 2]);
            }
            q + 2
        }
    } else {
        q
    }
}

fn is_ident_tok(t: &Tok) -> (r: bool)
    ensures
        r == t@ is Ident,
{
    match t {
        Tok::Ident(_) => true,
        _ => false,
    }
}

fn parse_crate_path(toks: &Vec<Tok>, p: usize, end: usize) -> (r: Result<(Span, usize), ParseError>)
    requires
        p <= end <= toks@.len(),
    ensures
        r == p_crate_path(tv(toks@), p, end),
        r matches Ok((_, q)) ==> p <= q <= end,
{
    let p1 = if end - p > 1 && crate::naming::joint_pair(toks, p, ':', ':') { p + 2 } else { p };
    if p1 < end && is_ident_tok(&toks[p1]) {
        assert(toks@[p1 as int]@ == tv(toks@)[p1 as int]);
        let q = parse_path_tail(toks, p1 + 1, end);
        let span = Span { start: p, end: q };
        if is_valid(Syntax::Path, toks, span) {
            Ok((span, q))
        } else {
            Err(ParseError { at: p, expected: Expected::Syntax(Syntax::Path) })
        }
    } else {
        if p1 < end {
            assert(toks@[p1 as int]@ == tv(toks@)[p1 as int]);
        }
        Err(ParseError { at: p1, expected: Expected::Ident })
    }
}

/// Appends the argument for one generic parameter.
fn push_param_arg(out: &mut Vec<Tok>, toks: &Vec<Tok>, s: Span)
    ensures
        tv(final(out)@) == tv(old(out)@) + param_arg(tv(toks@), s),
{
    let ghost ts = tv(toks@);
    if !(s.start <= s.end && s.end <= toks.len()) {
        assert(tv(out@) =~= tv(old(out)@) + param_arg(ts, s));
        return;
    }
    match parse_attrs_end(toks, s.start, s.end) {
        Ok(a) => {
            if a < s.end && a < toks.len() && !punct_at(toks, a, s.end, '\'')
                && !crate::scan::ident_at(toks, a, s.end, "const") {
                push_span(out, toks, Span { start: s.start, end: a });
                push_tok(out, crate::tokens::copy_tok(&toks[a]));
                assert(toks@[a as int]@ == ts[a as int]);
                assert(tv(out@) =~= tv(old(out)@) + param_arg(ts, s));
            } else {
                push_span(out, toks, s);
            }
        },
        Err(_) => {
            push_span(out, toks, s);
        },
    }
}

/// The class's generic parameters written as arguments.
fn generic_args(toks: &Vec<Tok>, params: &Vec<Span>) -> (r: Vec<Tok>)
    ensures
        tv(r@) == generic_args_of(tv(toks@), params@),
{
    let ghost ts = tv(toks@);
    let mut out: Vec<Tok> = Vec::new();
    assert(tv(out@) =~= Seq::<TokV>::empty());
    push_punct(&mut out, '<');
    assert(tv(out@) =~= seq![pn('<')]);
    assert(params@.subrange(0, 0) =~= Seq::<Span>::empty());
    let mut i: usize = 0;
    while i < params.len()
        invariant
            i <= params.len(),
            ts == tv(toks@),
            tv(out@) == args_from(seq![pn('<')], ts, params@.subrange(0, i as int)),
        decreases params.len() - i,
    {
        push_param_arg(&mut out, toks, params[i]);
        push_punct(&mut out, ',');
        assert(params@.subrange(0, i + 1).drop_last() =~= params@.subrange(0, i as int));
        i = i + 1;
    }
    assert(params@.subrange(0, params@.len() as int) =~= params@);
    push_punct(&mut out, '>');
    out
}

impl Invocation {
    /// Reads an invocation: the runtime crate's path, then a class that
    /// takes all the remaining tokens.
    pub fn parse(tokens: Vec<Tok>) -> (r: Result<Invocation, ParseError>)
        ensures
            match r {
                Ok(inv) => p_invocation(tv(tokens@)) == Ok::<(Span, ClassV), ParseError>((inv@.crate_path, inv@.class))
                    && inv@.tokens == tv(tokens@)
                    && inv@.generic_args == generic_args_of(tv(tokens@), inv@.class.generics.params),
                Err(e) => p_invocation(tv(tokens@)) == Err::<(Span, ClassV), ParseError>(e),
            },
    {
        let end = tokens.len();
        let (crate_path, q) = parse_crate_path(&tokens, 0, end)?;
        let (class, r) = Class::parse(&tokens, q, end)?;
        if r != end {
            return Err(ParseError { at: r, expected: Expected::End });
        }
        let generic_args = generic_args(&tokens, &class.generics.params);
        Ok(Invocation { tokens, crate_path, class, generic_args })
    }
}

// ---------------------------------------------------------------- class kinds

/// How a class is laid out, from its first inherited class and whether it
/// has virtual items of its own. `with_rest` tells whether the inherited
/// classes after the first become fields.
#[derive(Clone, Copy, PartialEq, Eq, Debug, Structural)]
pub enum ClassKind {
    /// A plain struct; the classes it inherits are its first fields.
    NonVirt { base: Option<Inherited>, with_rest: bool },
    /// A struct of a vtable pointer and data; `base`, when present, is the
    /// first inherited class, which the data embeds first, and, when it is
    /// virtual, the table too.
    VirtOrFromVirt { base: Option<Inherited>, with_rest: bool },
}

/// The kind of a class: a virtual first base, or virtual items of its own,
/// make it virtual. Either kind carries the first inherited class.
pub open spec fn class_kind_of(c: ClassV) -> ClassKind {
    let is_virtual = c.items.virt.len() > 0;
    match c.inheritance {
        Some(inh) => if inh.base.is_virtual || is_virtual {
            ClassKind::VirtOrFromVirt { base: Some(inh.base), with_rest: true }
        } else {
            ClassKind::NonVirt { base: Some(inh.base), with_rest: true }
        },
        None => if is_virtual {
            ClassKind::VirtOrFromVirt { base: None, with_rest: false }
        } else {
            ClassKind::NonVirt { base: None, with_rest: false }
        },
    }
}

/// The inherited classes after the first, when they become fields.
pub open spec fn rest_of(c: ClassV, with_rest: bool) -> Seq<Inherited> {
    match c.inheritance {
        Some(inh) => if with_rest { inh.rest } else { seq![] },
        None => seq![],
    }
}

impl Invocation {
    /// The kind of the class, for laying out inheritance.
    fn class_kind(&self) -> (r: ClassKind)
        ensures
            r == class_kind_of(self@.class),
    {
        let is_virtual = self.class.items.virt.len() > 0;
        match &self.class.inheritance {
            Some(inh) => if inh.base.is_virtual || is_virtual {
                ClassKind::VirtOrFromVirt { base: Some(inh.base), with_rest: true }
            } else {
                ClassKind::NonVirt { base: Some(inh.base), with_rest: true }
            },
            None => if is_virtual {
                ClassKind::VirtOrFromVirt { base: None, with_rest: false }
            } else {
                ClassKind::NonVirt { base: None, with_rest: false }
            },
        }
    }
}


// ---------------------------------------------------------------- building blocks

/// `#[repr(C)]` after `acc`.
pub open spec fn s_repr_c(acc: Seq<TokV>) -> Seq<TokV> {
    acc.push(pn('#')).push(TokV::Open(Delim::Bracket)).push(id("repr"@)).push(TokV::Open(Delim::Paren))
        .push(id("C"@)).push(TokV::Close(Delim::Paren)).push(TokV::Close(Delim::Bracket))
}

/// The trait that tells what an inherited class is.
pub open spec fn class_trait(is_virtual: bool) -> Seq<char> {
    if is_virtual { "Virtual"@ } else { "NonVirtual"@ }
}

/// The field for an inherited class:
/// `attrs vis inherited_name: <Path as crate::Trait>::This`.
#[verifier::opaque]
pub open spec fn s_inherited_field(acc: Seq<TokV>, ts: Seq<TokV>, cp: Span, i: Inherited) -> Seq<TokV> {
    let a = s_span(s_span(acc, ts, i.attrs), ts, i.vis).push(id(field_name(ts, i.path))).push(pn(':')).push(pn('<'));
    let b = s_span(s_span(a, ts, i.path).push(id("as"@)), ts, cp);
    sep(sep(b).push(id(class_trait(i.is_virtual))).push(pn('>'))).push(id("This"@))
}

/// The fields for inherited classes, each followed by a comma.
pub open spec fn s_inherited_fields(acc: Seq<TokV>, ts: Seq<TokV>, cp: Span, list: Seq<Inherited>) -> Seq<TokV>
    decreases list.len(),
{
    if list.len() == 0 {
        acc
    } else {
        s_inherited_field(s_inherited_fields(acc, ts, cp, list.drop_last()), ts, cp, list.last()).push(pn(','))
    }
}

/// The field for the first inherited class, when there is one.
pub open spec fn s_opt_field(acc: Seq<TokV>, ts: Seq<TokV>, cp: Span, base: Option<Inherited>) -> Seq<TokV> {
    match base {
        Some(b) => s_inherited_field(acc, ts, cp, b).push(pn(',')),
        None => acc,
    }
}


/// Appends the field for an inherited class.
fn push_inherited_field(out: &mut Vec<Tok>, toks: &Vec<Tok>, cp: Span, i: Inherited)
    ensures
        tv(final(out)@) == s_inherited_field(tv(old(out)@), tv(toks@), cp, i),
{
    proof { reveal(s_inherited_field); }
    push_span(out, toks, i.attrs);
    push_span(out, toks, i.vis);
    push_ident_chars(out, &field_name_of(toks, i.path));
    push_punct(out, ':');
    push_punct(out, '<');
    push_span(out, toks, i.path);
    push_ident(out, "as");
    push_span(out, toks, cp);
    push_sep(out);
    if i.is_virtual {
        push_ident(out, "Virtual");
    } else {
        push_ident(out, "NonVirtual");
    }
    push_punct(out, '>');
    push_sep(out);
    push_ident(out, "This");
}

impl Inherited {
    /// The name of the field that holds this class: `inherited` and, for
    /// each segment of its path, `_` and the segment in snake case.
    pub fn field_ident(&self, toks: &Vec<Tok>) -> (r: Vec<char>)
        ensures
            r@ == field_name(tv(toks@), self.path),
    {
        field_name_of(toks, self.path)
    }

    /// The field that holds this class inside a class that inherits it:
    /// `attrs vis name: <Path as crate::Virtual>::This` for a virtual class,
    /// `...::NonVirtual>::This` otherwise, with `crate` the runtime crate's
    /// path.
    pub fn field(&self, toks: &Vec<Tok>, crate_path: Span) -> (r: Vec<Tok>)
        ensures
            tv(r@) == s_inherited_field(seq![], tv(toks@), crate_path, *self),
    {
        let mut out: Vec<Tok> = Vec::new();
        assert(tv(out@) =~= Seq::<TokV>::empty());
        push_inherited_field(&mut out, toks, crate_path, *self);
        out
    }
}

// ---------------------------------------------------------------- pieces of the expansion

/// The text of the identifier at the start of a span.
pub open spec fn ident_text(ts: Seq<TokV>, s: Span) -> Seq<char> {
    if s.start < ts.len() {
        match ts[s.start as int] {
            TokV::Ident(t) => t,
            _ => seq![],
        }
    } else {
        seq![]
    }
}

fn ident_chars(toks: &Vec<Tok>, s: Span) -> (r: Vec<char>)
    ensures
        r@ == ident_text(tv(toks@), s),
{
    if s.start < toks.len() {
        assert(toks@[s.start as int]@ == tv(toks@)[s.start as int]);
        match &toks[s.start] {
            Tok::Ident(t) => crate::tokens::copy_chars(t),
            _ => Vec::new(),
        }
    } else {
        Vec::new()
    }
}

/// The name of the class's virtual function table: the class's name and `Vt`.
pub open spec fn vt_name(inv: InvocationV) -> Seq<char> {
    ident_text(inv.tokens, inv.class.name) + "Vt"@
}

/// The name of the class's data struct: the class's name and `Data`.
pub open spec fn data_name(inv: InvocationV) -> Seq<char> {
    ident_text(inv.tokens, inv.class.name) + "Data"@
}

pub open spec fn s_crate(acc: Seq<TokV>, inv: InvocationV) -> Seq<TokV> {
    s_span(acc, inv.tokens, inv.crate_path)
}

pub open spec fn s_name(acc: Seq<TokV>, inv: InvocationV) -> Seq<TokV> {
    s_span(acc, inv.tokens, inv.class.name)
}

/// `<` the generic parameters as declared `>`.
pub open spec fn s_params(acc: Seq<TokV>, inv: InvocationV) -> Seq<TokV> {
    s_span(acc.push(pn('<')), inv.tokens, inv.class.generics.list).push(pn('>'))
}

pub open spec fn s_args(acc: Seq<TokV>, inv: InvocationV) -> Seq<TokV> {
    acc + inv.generic_args
}

/// The tokens that the class's `where` clause prints as: the clause as
/// written when it has predicates, nothing for a bare `where` or none.
pub open spec fn where_tokens(inv: InvocationV) -> Seq<TokV> {
    match inv.class.where_clause {
        Some(w) => if w.start + 1 < w.end { span_of(inv.tokens, w) } else { seq![] },
        None => seq![],
    }
}

/// The `where` clause after `acc`.
pub open spec fn s_where(acc: Seq<TokV>, inv: InvocationV) -> Seq<TokV> {
    acc + where_tokens(inv)
}

/// `#[repr(C)] attrs vis struct Name<params> where {`.
#[verifier::opaque]
pub open spec fn s_head(acc: Seq<TokV>, inv: InvocationV) -> Seq<TokV> {
    let a = s_span(s_span(s_repr_c(acc), inv.tokens, inv.class.attrs), inv.tokens, inv.class.vis);
    s_where(s_params(s_name(a.push(id("struct"@)), inv), inv), inv).push(TokV::Open(Delim::Brace))
}

/// `unsafe impl<params> crate::Trait for Name<args> where {`.
#[verifier::opaque]
pub open spec fn s_impl_for(acc: Seq<TokV>, inv: InvocationV, tr: Seq<char>) -> Seq<TokV> {
    let a = sep(s_crate(s_params(acc.push(id("unsafe"@)).push(id("impl"@)), inv), inv));
    s_where(s_args(s_name(a.push(id(tr)).push(id("for"@)), inv), inv), inv).push(TokV::Open(Delim::Brace))
}

/// `Copy` and `Clone` for the type `nm<args>`, with the class's parameters.
#[verifier::opaque]
pub open spec fn s_copy_impl(acc: Seq<TokV>, inv: InvocationV, nm: Seq<char>) -> Seq<TokV> {
    let a = s_params(acc.push(id("impl"@)), inv).push(id("Copy"@)).push(id("for"@)).push(id(nm));
    let b = s_where(s_args(a, inv), inv).push(TokV::Open(Delim::Brace)).push(TokV::Close(Delim::Brace));
    let c = s_params(b.push(id("impl"@)), inv).push(id("Clone"@)).push(id("for"@)).push(id(nm));
    let d = s_where(s_args(c, inv), inv).push(TokV::Open(Delim::Brace));
    d.push(id("fn"@)).push(id("clone"@)).push(TokV::Open(Delim::Paren)).push(pn('&')).push(id("self"@))
        .push(TokV::Close(Delim::Paren)).push(pj('-')).push(pn('>')).push(id("Self"@))
        .push(TokV::Open(Delim::Brace)).push(pn('*')).push(id("self"@)).push(TokV::Close(Delim::Brace))
        .push(TokV::Close(Delim::Brace))
}

/// A virtual item as a field of the table: a function pointer
/// `name: crate::virtual_fn! { fn(crate::This<Name<args>>, params) output },`
/// or `name: crate::Usage<Type>,`.
#[verifier::opaque]
pub open spec fn s_vtable_field(acc: Seq<TokV>, inv: InvocationV, it: virt::ItemV) -> Seq<TokV> {
    let ts = inv.tokens;
    let a = s_span(s_span(acc, ts, it.attrs), ts, it.vis);
    match it.kind {
        virt::KindV::Fn(f) => {
            let b = sep(s_crate(s_span(a, ts, f.name).push(pn(':')), inv)).push(id("virtual_fn"@)).push(pn('!'))
                .push(TokV::Open(Delim::Brace)).push(id("fn"@)).push(TokV::Open(Delim::Paren));
            let c = s_args(s_name(sep(s_crate(b, inv)).push(id("This"@)).push(pn('<')), inv), inv)
                .push(pn('>')).push(pn(','));
            s_span(s_span(c, ts, f.args).push(TokV::Close(Delim::Paren)), ts, f.output)
                .push(TokV::Close(Delim::Brace)).push(pn(','))
        },
        virt::KindV::Use(u) => {
            let b = sep(s_crate(s_span(a, ts, u.field).push(pn(':')), inv)).push(id("Usage"@)).push(pn('<'));
            s_span(b, ts, u.what).push(pn('>')).push(pn(','))
        },
    }
}

pub open spec fn s_vtable_fields(acc: Seq<TokV>, inv: InvocationV, list: Seq<virt::ItemV>) -> Seq<TokV>
    decreases list.len(),
{
    if list.len() == 0 {
        acc
    } else {
        s_vtable_field(s_vtable_fields(acc, inv, list.drop_last()), inv, list.last())
    }
}

/// The entry for a virtual base:
/// `vis name: <Path as crate::Virtual>::Assoc,`.
#[verifier::opaque]
pub open spec fn s_virtual_entry(acc: Seq<TokV>, inv: InvocationV, b: Inherited, assoc: Seq<char>) -> Seq<TokV> {
    let ts = inv.tokens;
    let a = s_span(acc, ts, b.vis).push(id(field_name(ts, b.path))).push(pn(':')).push(pn('<'));
    let c = sep(s_crate(s_span(a, ts, b.path).push(id("as"@)), inv)).push(id("Virtual"@)).push(pn('>'));
    sep(c).push(id(assoc)).push(pn(','))
}

/// The virtual function table struct and its `Copy` and `Clone`.
pub open spec fn s_vtable_def(acc: Seq<TokV>, inv: InvocationV, base: Option<Inherited>) -> Seq<TokV> {
    let a = s_span(s_repr_c(acc), inv.tokens, inv.class.vis).push(id("struct"@)).push(id(vt_name(inv)));
    let b = s_where(s_params(a, inv), inv).push(TokV::Open(Delim::Brace));
    let c = match base {
        Some(bb) => s_virtual_entry(b, inv, bb, "VTable"@),
        None => b,
    };
    s_copy_impl(s_vtable_fields(c, inv, inv.class.items.virt).push(TokV::Close(Delim::Brace)), inv, vt_name(inv))
}

pub open spec fn s_data_args(acc: Seq<TokV>, inv: InvocationV, has: bool) -> Seq<TokV> {
    if has { s_args(acc, inv) } else { acc }
}

/// A plain struct: the head, then fields for the first inherited class,
/// the other inherited classes and the items, in that order.
pub open spec fn s_nonvirt_struct(acc: Seq<TokV>, inv: InvocationV, base: Option<Inherited>, with_rest: bool) -> Seq<TokV> {
    let ts = inv.tokens;
    let a = s_inherited_fields(s_opt_field(s_head(acc, inv), ts, inv.crate_path, base), ts, inv.crate_path,
        rest_of(inv.class, with_rest));
    s_non_virt_items(a, ts, inv.class.items.non_virt).push(TokV::Close(Delim::Brace))
}

/// `unsafe impl crate::NonVirtual for Name<args> { type This = Self; }`.
pub open spec fn s_nonvirt_impl(acc: Seq<TokV>, inv: InvocationV) -> Seq<TokV> {
    s_impl_for(acc, inv, "NonVirtual"@).push(id("type"@)).push(id("This"@)).push(pn('=')).push(id("Self"@))
        .push(pn(';')).push(TokV::Close(Delim::Brace))
}

/// A class without a vtable: the struct and its `NonVirtual` impl.
pub open spec fn s_nonvirt_def(acc: Seq<TokV>, inv: InvocationV, base: Option<Inherited>, with_rest: bool) -> Seq<TokV> {
    s_nonvirt_impl(s_nonvirt_struct(acc, inv, base, with_rest), inv)
}

/// The data struct has generics when it has fields of its own or a base.
pub open spec fn data_has_generics(inv: InvocationV, base: Option<Inherited>) -> bool {
    inv.class.items.non_virt.len() > 0 || base is Some
}

/// `Vt<args>`: the type of the class's table.
pub open spec fn vtable_type(inv: InvocationV) -> Seq<TokV> {
    seq![id(vt_name(inv))] + inv.generic_args
}

/// `Data<args>`, or `Data` when the data struct has no generics.
pub open spec fn data_type(inv: InvocationV, has: bool) -> Seq<TokV> {
    if has { seq![id(data_name(inv))] + inv.generic_args } else { seq![id(data_name(inv))] }
}

/// The struct of a class with a vtable:
/// `head pub vtable: crate::VTablePtr<NameVt<args>>, pub data: NameData<args>, }`.
pub open spec fn s_virt_struct(acc: Seq<TokV>, inv: InvocationV, has: bool) -> Seq<TokV> {
    let a = s_head(acc, inv).push(id("pub"@)).push(id("vtable"@)).push(pn(':'));
    let b = s_args(sep(s_crate(a, inv)).push(id("VTablePtr"@)).push(pn('<')).push(id(vt_name(inv))), inv)
        .push(pn('>')).push(pn(','));
    s_data_args(b.push(id("pub"@)).push(id("data"@)).push(pn(':')).push(id(data_name(inv))), inv, has)
        .push(pn(',')).push(TokV::Close(Delim::Brace))
}

/// `unsafe impl crate::Virtual for Name<args>
/// { type This = Self; type VTable = NameVt<args>; type Data = NameData<args>; }`.
pub open spec fn s_virt_impl(acc: Seq<TokV>, inv: InvocationV, has: bool) -> Seq<TokV> {
    let d = s_impl_for(acc, inv, "Virtual"@).push(id("type"@)).push(id("This"@)).push(pn('=')).push(id("Self"@))
        .push(pn(';')).push(id("type"@)).push(id("VTable"@)).push(pn('=')).push(id(vt_name(inv)));
    s_data_args(s_args(d, inv).push(pn(';')).push(id("type"@)).push(id("Data"@)).push(pn('=')).push(id(data_name(inv))),
        inv, has).push(pn(';')).push(TokV::Close(Delim::Brace))
}

/// The first inherited class when it is virtual: the one whose table the
/// class's table embeds.
pub open spec fn virtual_base(base: Option<Inherited>) -> Option<Inherited> {
    match base {
        Some(b) => if b.is_virtual { Some(b) } else { None },
        None => None,
    }
}

/// The first field of the data struct: the data of a virtual first base,
/// `vis inherited_base: <Base as crate::Virtual>::Data,`, or a non-virtual
/// first base whole, `attrs vis inherited_base: <Base as crate::NonVirtual>::This,`.
pub open spec fn s_base_data(acc: Seq<TokV>, inv: InvocationV, base: Option<Inherited>) -> Seq<TokV> {
    match base {
        Some(b) => if b.is_virtual {
            s_virtual_entry(acc, inv, b, "Data"@)
        } else {
            s_opt_field(acc, inv.tokens, inv.crate_path, base)
        },
        None => acc,
    }
}

/// The data struct: the first inherited class, then the other inherited
/// classes and the items.
pub open spec fn s_data_def(acc: Seq<TokV>, inv: InvocationV, base: Option<Inherited>, with_rest: bool, has: bool) -> Seq<TokV> {
    let ts = inv.tokens;
    let g = s_span(s_repr_c(acc), ts, inv.class.vis).push(id("struct"@)).push(id(data_name(inv))).push(pn('<'));
    let h = if has { s_span(g, ts, inv.class.generics.list) } else { g };
    let i = (if has { s_where(h.push(pn('>')), inv) } else { h.push(pn('>')) }).push(TokV::Open(Delim::Brace));
    let j = s_base_data(i, inv, base);
    s_non_virt_items(s_inherited_fields(j, ts, inv.crate_path, rest_of(inv.class, with_rest)), ts,
        inv.class.items.non_virt).push(TokV::Close(Delim::Brace))
}

/// A class with a vtable: the struct, its `Virtual` impl, the table, which
/// embeds the first base's table when that base is virtual, and the data
/// struct.
pub open spec fn s_virt_def(acc: Seq<TokV>, inv: InvocationV, base: Option<Inherited>, with_rest: bool) -> Seq<TokV> {
    let has = data_has_generics(inv, base);
    s_data_def(s_vtable_def(s_virt_impl(s_virt_struct(acc, inv, has), inv, has), inv, virtual_base(base)), inv, base,
        with_rest, has)
}

/// Why a class could not be expanded.
#[derive(Clone, Copy, PartialEq, Eq, Debug, Structural)]
pub enum ExpandError {
    /// The virtual base, whose table is embedded in the class's table, has
    /// attributes; `at` is where they start.
    BaseAttributes { at: usize },
    /// The class is laid out as virtual without a virtual base or virtual
    /// items of its own; `at` is its brace group.
    NotVirtual { at: usize },
}

/// The items for the class itself.
pub open spec fn s_expand_impl(inv: InvocationV) -> Result<Seq<TokV>, ExpandError> {
    match class_kind_of(inv.class) {
        ClassKind::NonVirt { base, with_rest } => Ok(s_nonvirt_def(seq![], inv, base, with_rest)),
        ClassKind::VirtOrFromVirt { base, with_rest } => match base {
            Some(b) => if b.is_virtual && b.attrs.start != b.attrs.end {
                Err(ExpandError::BaseAttributes { at: b.attrs.start })
            } else {
                Ok(s_virt_def(seq![], inv, base, with_rest))
            },
            None => if inv.class.items.virt.len() == 0 {
                Err(ExpandError::NotVirtual { at: inv.class.items_brace.start })
            } else {
                Ok(s_virt_def(seq![], inv, base, with_rest))
            },
        },
    }
}

/// `unsafe impl<params> crate::Inherits<Base> for Name<args> where {}`.
pub open spec fn s_inherits(acc: Seq<TokV>, inv: InvocationV, base: Inherited) -> Seq<TokV> {
    let a = sep(s_crate(s_params(acc.push(id("unsafe"@)).push(id("impl"@)), inv), inv)).push(id("Inherits"@)).push(pn('<'));
    let b = s_span(a, inv.tokens, base.path).push(pn('>')).push(id("for"@));
    s_where(s_args(s_name(b, inv), inv), inv).push(TokV::Open(Delim::Brace)).push(TokV::Close(Delim::Brace))
}

/// The whole expansion: for a class that inherits, the `Inherits` impl for
/// its first base, then the class's own items.
pub open spec fn s_expand(inv: InvocationV) -> Result<Seq<TokV>, ExpandError> {
    match s_expand_impl(inv) {
        Ok(def) => match inv.class.inheritance {
            Some(inh) => Ok(s_inherits(seq![], inv, inh.base) + def),
            None => Ok(def),
        },
        Err(e) => Err(e),
    }
}


// ---------------------------------------------------------------- expanding

impl Invocation {
    fn push_crate(&self, out: &mut Vec<Tok>)
        ensures
            tv(final(out)@) == s_crate(tv(old(out)@), self@),
    {
        push_span(out, &self.tokens, self.crate_path);
    }

    fn push_name(&self, out: &mut Vec<Tok>)
        ensures
            tv(final(out)@) == s_name(tv(old(out)@), self@),
    {
        push_span(out, &self.tokens, self.class.name);
    }

    fn push_params(&self, out: &mut Vec<Tok>)
        ensures
            tv(final(out)@) == s_params(tv(old(out)@), self@),
    {
        push_punct(out, '<');
        push_span(out, &self.tokens, self.class.generics.list);
        push_punct(out, '>');
    }

    fn push_args(&self, out: &mut Vec<Tok>)
        ensures
            tv(final(out)@) == s_args(tv(old(out)@), self@),
    {
        push_toks(out, &self.generic_args);
    }

    fn push_where(&self, out: &mut Vec<Tok>)
        ensures
            tv(final(out)@) == s_where(tv(old(out)@), self@),
    {
        match self.class.where_clause {
            Some(w) => if w.start < w.end && w.end - w.start > 1 {
                push_span(out, &self.tokens, w);
            } else {
                assert(tv(out@) =~= tv(out@) + where_tokens(self@));
            },
            None => {
                assert(tv(out@) =~= tv(out@) + where_tokens(self@));
            },
        }
    }

    fn push_head(&self, out: &mut Vec<Tok>)
        ensures
            tv(final(out)@) == s_head(tv(old(out)@), self@),
    {
        proof { reveal(s_head); }
        push_repr_c(out);
        push_span(out, &self.tokens, self.class.attrs);
        push_span(out, &self.tokens, self.class.vis);
        push_ident(out, "struct");
        self.push_name(out);
        self.push_params(out);
        self.push_where(out);
        push_open(out, Delim::Brace);
    }

    fn push_impl_for(&self, out: &mut Vec<Tok>, tr: &str)
        ensures
            tv(final(out)@) == s_impl_for(tv(old(out)@), self@, tr@),
    {
        proof { reveal(s_impl_for); }
        push_ident(out, "unsafe");
        push_ident(out, "impl");
        self.push_params(out);
        self.push_crate(out);
        push_sep(out);
        push_ident(out, tr);
        push_ident(out, "for");
        self.push_name(out);
        self.push_args(out);
        self.push_where(out);
        push_open(out, Delim::Brace);
    }

    /// Appends `Copy` and `Clone` impls for `nm<args>`.
    fn copy_impl(&self, out: &mut Vec<Tok>, nm: &Vec<char>)
        ensures
            tv(final(out)@) == s_copy_impl(tv(old(out)@), self@, nm@),
    {
        proof { reveal(s_copy_impl); }
        push_ident(out, "impl");
        self.push_params(out);
        push_ident(out, "Copy");
        push_ident(out, "for");
        push_ident_chars(out, nm);
        self.push_args(out);
        self.push_where(out);
        push_open(out, Delim::Brace);
        push_close(out, Delim::Brace);
        push_ident(out, "impl");
        self.push_params(out);
        push_ident(out, "Clone");
        push_ident(out, "for");
        push_ident_chars(out, nm);
        self.push_args(out);
        self.push_where(out);
        push_open(out, Delim::Brace);
        push_ident(out, "fn");
        push_ident(out, "clone");
        push_open(out, Delim::Paren);
        push_punct(out, '&');
        push_ident(out, "self");
        push_close(out, Delim::Paren);
        push_joint(out, '-');
        push_punct(out, '>');
        push_ident(out, "Self");
        push_open(out, Delim::Brace);
        push_punct(out, '*');
        push_ident(out, "self");
        push_close(out, Delim::Brace);
        push_close(out, Delim::Brace);
    }

    fn push_inherited_fields(&self, out: &mut Vec<Tok>, list: &Vec<Inherited>)
        ensures
            tv(final(out)@) == s_inherited_fields(tv(old(out)@), self@.tokens, self.crate_path, list@),
    {
        let ghost start = tv(out@);
        let mut i: usize = 0;
        assert(list@.subrange(0, 0) =~= Seq::<Inherited>::empty());
        while i < list.len()
            invariant
                i <= list.len(),
                tv(out@) == s_inherited_fields(start, self@.tokens, self.crate_path, list@.subrange(0, i as int)),
            decreases list.len() - i,
        {
            push_inherited_field(out, &self.tokens, self.crate_path, list[i]);
            push_punct(out, ',');
            assert(list@.subrange(0, i + 1).drop_last() =~= list@.subrange(0, i as int));
            i = i + 1;
        }
        assert(list@.subrange(0, list@.len() as int) =~= list@);
    }

    /// Appends the fields for the inherited classes after the first, when
    /// they become fields.
    fn push_rest(&self, out: &mut Vec<Tok>, with_rest: bool)
        ensures
            tv(final(out)@) == s_inherited_fields(tv(old(out)@), self@.tokens, self.crate_path,
                rest_of(self@.class, with_rest)),
    {
        match &self.class.inheritance {
            Some(inh) => {
                if with_rest {
                    self.push_inherited_fields(out, &inh.rest);
                } else {
                    assert(tv(out@) == s_inherited_fields(tv(out@), self@.tokens, self.crate_path, seq![]));
                }
            },
            None => {
                assert(tv(out@) == s_inherited_fields(tv(out@), self@.tokens, self.crate_path, seq![]));
            },
        }
    }

    fn push_non_virt_items(&self, out: &mut Vec<Tok>)
        ensures
            tv(final(out)@) == s_non_virt_items(tv(old(out)@), self@.tokens, self@.class.items.non_virt),
    {
        let list = &self.class.items.non_virt;
        let ghost start = tv(out@);
        let mut i: usize = 0;
        assert(list@.subrange(0, 0) =~= Seq::<non_virt::Item>::empty());
        while i < list.len()
            invariant
                i <= list.len(),
                list == &self.class.items.non_virt,
                tv(out@) == s_non_virt_items(start, self@.tokens, list@.subrange(0, i as int)),
            decreases list.len() - i,
        {
            list[i].to_tokens(&self.tokens, out);
            push_punct(out, ',');
            assert(list@.subrange(0, i + 1).drop_last() =~= list@.subrange(0, i as int));
            i = i + 1;
        }
        assert(list@.subrange(0, list@.len() as int) =~= list@);
    }

    fn push_vtable_field(&self, out: &mut Vec<Tok>, it: &virt::Item)
        ensures
            tv(final(out)@) == s_vtable_field(tv(old(out)@), self@, it@),
    {
        proof { reveal(s_vtable_field); }
        push_span(out, &self.tokens, it.attrs);
        push_span(out, &self.tokens, it.vis);
        match &it.kind {
            virt::Kind::Fn(f) => {
                push_span(out, &self.tokens, f.name);
                push_punct(out, ':');
                self.push_crate(out);
                push_sep(out);
                push_ident(out, "virtual_fn");
                push_punct(out, '!');
                push_open(out, Delim::Brace);
                push_ident(out, "fn");
                push_open(out, Delim::Paren);
                self.push_crate(out);
                push_sep(out);
                push_ident(out, "This");
                push_punct(out, '<');
                self.push_name(out);
                self.push_args(out);
                push_punct(out, '>');
                push_punct(out, ',');
                push_span(out, &self.tokens, f.args);
                push_close(out, Delim::Paren);
                push_span(out, &self.tokens, f.output);
                push_close(out, Delim::Brace);
                push_punct(out, ',');
            },
            virt::Kind::Use(u) => {
                push_span(out, &self.tokens, u.field);
                push_punct(out, ':');
                self.push_crate(out);
                push_sep(out);
                push_ident(out, "Usage");
                push_punct(out, '<');
                push_span(out, &self.tokens, u.what);
                push_punct(out, '>');
                push_punct(out, ',');
            },
        }
    }

    fn push_vtable_fields(&self, out: &mut Vec<Tok>)
        ensures
            tv(final(out)@) == s_vtable_fields(tv(old(out)@), self@, self@.class.items.virt),
    {
        let list = &self.class.items.virt;
        let ghost vs = self@.class.items.virt;
        let ghost start = tv(out@);
        let mut i: usize = 0;
        assert(vs.subrange(0, 0) =~= Seq::<virt::ItemV>::empty());
        while i < list.len()
            invariant
                i <= list.len(),
                list == &self.class.items.virt,
                vs == self@.class.items.virt,
                vs.len() == list@.len(),
                tv(out@) == s_vtable_fields(start, self@, vs.subrange(0, i as int)),
            decreases list.len() - i,
        {
            assert(vs[i as int] == list@[i as int]@);
            self.push_vtable_field(out, &list[i]);
            assert(vs.subrange(0, i + 1).drop_last() =~= vs.subrange(0, i as int));
            i = i + 1;
        }
        assert(vs.subrange(0, vs.len() as int) =~= vs);
    }

    fn push_virtual_entry(&self, out: &mut Vec<Tok>, b: Inherited, assoc: &str)
        ensures
            tv(final(out)@) == s_virtual_entry(tv(old(out)@), self@, b, assoc@),
    {
        proof { reveal(s_virtual_entry); }
        push_span(out, &self.tokens, b.vis);
        push_ident_chars(out, &field_name_of(&self.tokens, b.path));
        push_punct(out, ':');
        push_punct(out, '<');
        push_span(out, &self.tokens, b.path);
        push_ident(out, "as");
        self.push_crate(out);
        push_sep(out);
        push_ident(out, "Virtual");
        push_punct(out, '>');
        push_sep(out);
        push_ident(out, assoc);
        push_punct(out, ',');
    }

    fn push_vtable_def(&self, out: &mut Vec<Tok>, base: Option<Inherited>, vt: &Vec<char>)
        requires
            vt@ == vt_name(self@),
        ensures
            tv(final(out)@) == s_vtable_def(tv(old(out)@), self@, base),
    {
        push_repr_c(out);
        push_span(out, &self.tokens, self.class.vis);
        push_ident(out, "struct");
        push_ident_chars(out, vt);
        self.push_params(out);
        self.push_where(out);
        push_open(out, Delim::Brace);
        match base {
            Some(b) => self.push_virtual_entry(out, b, "VTable"),
            None => {},
        }
        self.push_vtable_fields(out);
        push_close(out, Delim::Brace);
        self.copy_impl(out, vt);
    }

    fn push_data_args(&self, out: &mut Vec<Tok>, has: bool)
        ensures
            tv(final(out)@) == s_data_args(tv(old(out)@), self@, has),
    {
        if has {
            self.push_args(out);
        }
    }

    fn push_nonvirt_def(&self, out: &mut Vec<Tok>, base: Option<Inherited>, with_rest: bool)
        ensures
            tv(final(out)@) == s_nonvirt_def(tv(old(out)@), self@, base, with_rest),
    {
        self.push_head(out);
        match base {
            Some(b) => {
                push_inherited_field(out, &self.tokens, self.crate_path, b);
                push_punct(out, ',');
            },
            None => {},
        }
        self.push_rest(out, with_rest);
        self.push_non_virt_items(out);
        push_close(out, Delim::Brace);
        self.push_impl_for(out, "NonVirtual");
        push_ident(out, "type");
        push_ident(out, "This");
        push_punct(out, '=');
        push_ident(out, "Self");
        push_punct(out, ';');
        push_close(out, Delim::Brace);
    }

    fn push_virt_struct(&self, out: &mut Vec<Tok>, has: bool, vt: &Vec<char>, dn: &Vec<char>)
        requires
            vt@ == vt_name(self@),
            dn@ == data_name(self@),
        ensures
            tv(final(out)@) == s_virt_struct(tv(old(out)@), self@, has),
    {
        self.push_head(out);
        push_ident(out, "pub");
        push_ident(out, "vtable");
        push_punct(out, ':');
        self.push_crate(out);
        push_sep(out);
        push_ident(out, "VTablePtr");
        push_punct(out, '<');
        push_ident_chars(out, vt);
        self.push_args(out);
        push_punct(out, '>');
        push_punct(out, ',');
        push_ident(out, "pub");
        push_ident(out, "data");
        push_punct(out, ':');
        push_ident_chars(out, dn);
        self.push_data_args(out, has);
        push_punct(out, ',');
        push_close(out, Delim::Brace);
    }

    fn push_virt_impl(&self, out: &mut Vec<Tok>, has: bool, vt: &Vec<char>, dn: &Vec<char>)
        requires
            vt@ == vt_name(self@),
            dn@ == data_name(self@),
        ensures
            tv(final(out)@) == s_virt_impl(tv(old(out)@), self@, has),
    {
        self.push_impl_for(out, "Virtual");
        push_ident(out, "type");
        push_ident(out, "This");
        push_punct(out, '=');
        push_ident(out, "Self");
        push_punct(out, ';');
        push_ident(out, "type");
        push_ident(out, "VTable");
        push_punct(out, '=');
        push_ident_chars(out, vt);
        self.push_args(out);
        push_punct(out, ';');
        push_ident(out, "type");
        push_ident(out, "Data");
        push_punct(out, '=');
        push_ident_chars(out, dn);
        self.push_data_args(out, has);
        push_punct(out, ';');
        push_close(out, Delim::Brace);
    }

    fn push_data_def(&self, out: &mut Vec<Tok>, base: Option<Inherited>, with_rest: bool, has: bool, dn: &Vec<char>)
        requires
            dn@ == data_name(self@),
        ensures
            tv(final(out)@) == s_data_def(tv(old(out)@), self@, base, with_rest, has),
    {
        push_repr_c(out);
        push_span(out, &self.tokens, self.class.vis);
        push_ident(out, "struct");
        push_ident_chars(out, dn);
        push_punct(out, '<');
        if has {
            push_span(out, &self.tokens, self.class.generics.list);
        }
        push_punct(out, '>');
        if has {
            self.push_where(out);
        }
        push_open(out, Delim::Brace);
        match base {
            Some(b) => if b.is_virtual {
                self.push_virtual_entry(out, b, "Data");
            } else {
                push_inherited_field(out, &self.tokens, self.crate_path, b);
                push_punct(out, ',');
            },
            None => {},
        }
        self.push_rest(out, with_rest);
        self.push_non_virt_items(out);
        push_close(out, Delim::Brace);
    }

    fn push_virt_def(&self, out: &mut Vec<Tok>, base: Option<Inherited>, with_rest: bool)
        ensures
            tv(final(out)@) == s_virt_def(tv(old(out)@), self@, base, with_rest),
    {
        let has = self.class.items.non_virt.len() > 0 || base.is_some();
        let mut vt = ident_chars(&self.tokens, self.class.name);
        crate::syntax::push_chars(&mut vt, &crate::scan::chars_of("Vt"));
        let mut dn = ident_chars(&self.tokens, self.class.name);
        crate::syntax::push_chars(&mut dn, &crate::scan::chars_of("Data"));
        self.push_virt_struct(out, has, &vt, &dn);
        self.push_virt_impl(out, has, &vt, &dn);
        let vbase = match base {
            Some(b) => if b.is_virtual { Some(b) } else { None },
            None => None,
        };
        self.push_vtable_def(out, vbase, &vt);
        self.push_data_def(out, base, with_rest, has, &dn);
    }

    /// The items for the class itself.
    fn expand_impl(&self) -> (r: Result<Vec<Tok>, ExpandError>)
        ensures
            match r {
                Ok(out) => s_expand_impl(self@) == Ok::<Seq<TokV>, ExpandError>(tv(out@)),
                Err(e) => s_expand_impl(self@) == Err::<Seq<TokV>, ExpandError>(e),
            },
    {
        let mut out: Vec<Tok> = Vec::new();
        assert(tv(out@) =~= Seq::<TokV>::empty());
        match self.class_kind() {
            ClassKind::NonVirt { base, with_rest } => {
                self.push_nonvirt_def(&mut out, base, with_rest);
            },
            ClassKind::VirtOrFromVirt { base, with_rest } => {
                match base {
                    Some(b) => {
                        if b.is_virtual && b.attrs.start != b.attrs.end {
                            return Err(ExpandError::BaseAttributes { at: b.attrs.start });
                        }
                    },
                    None => {
                        if self.class.items.virt.len() == 0 {
                            return Err(ExpandError::NotVirtual { at: self.class.items_brace.start });
                        }
                    },
                }
                self.push_virt_def(&mut out, base, with_rest);
            },
        }
        Ok(out)
    }

    /// Expands the class: for a class that inherits, `unsafe impl
    /// crate::Inherits<Base>` for its first base, then the class's items.
    pub fn expand(&self) -> (r: Result<Vec<Tok>, ExpandError>)
        ensures
            match r {
                Ok(out) => s_expand(self@) == Ok::<Seq<TokV>, ExpandError>(tv(out@)),
                Err(e) => s_expand(self@) == Err::<Seq<TokV>, ExpandError>(e),
            },
    {
        let definition = self.expand_impl()?;
        match &self.class.inheritance {
            Some(inh) => {
                let mut out: Vec<Tok> = Vec::new();
                assert(tv(out@) =~= Seq::<TokV>::empty());
                push_ident(&mut out, "unsafe");
                push_ident(&mut out, "impl");
                self.push_params(&mut out);
                self.push_crate(&mut out);
                push_sep(&mut out);
                push_ident(&mut out, "Inherits");
                push_punct(&mut out, '<');
                push_span(&mut out, &self.tokens, inh.base.path);
                push_punct(&mut out, '>');
                push_ident(&mut out, "for");
                self.push_name(&mut out);
                self.push_args(&mut out);
                self.push_where(&mut out);
                push_open(&mut out, Delim::Brace);
                push_close(&mut out, Delim::Brace);
                push_toks(&mut out, &definition);
                Ok(out)
            },
            None => Ok(definition),
        }
    }
}

fn push_repr_c(out: &mut Vec<Tok>)
    ensures
        tv(final(out)@) == s_repr_c(tv(old(out)@)),
{
    push_punct(out, '#');
    push_open(out, Delim::Bracket);
    push_ident(out, "repr");
    push_open(out, Delim::Paren);
    push_ident(out, "C");
    push_close(out, Delim::Paren);
    push_close(out, Delim::Bracket);
}

} // verus!
