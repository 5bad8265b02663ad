//! Reading a printed virtual function back: the scanners and parsers give
//! the same answers on tokens that agree with those they first read.

use vstd::prelude::*;
use crate::tokens::{Delim, Spacing, TokV};
use crate::scan::{
    Span, Stop, scan, walk, balanced, close_of, stops_at, joined_to_previous, lone_colon, is_punct, punct_is, open_is,
    lemma_scan_bounds, lemma_close_of_bounds,
};
use crate::syntax::{Syntax, valid};
use crate::error::ParseError;
use crate::emit::{id, pn, span_of, s_span};
use crate::parse::{p_attrs, p_attrs_end, lemma_attrs_end, p_ident, ident_ok};
use crate::items::virt::{VirtFnV, p_virt_fn, s_virt_fn, VirtFnArg, VirtFnArgKind, p_fn_arg, p_fn_arg_kind, p_fn_args, s_fn_arg, s_fn_args, dots_at, lemma_fn_arg};

verus! {

/// `scan` over `t2` from `j - d` ends `d` before where it ends over `t1`
/// from `j`, when the two agree on every token that the first scan passes
/// and `t2` stops, or ends, where `t1`'s scan ended.
pub proof fn lemma_scan_transfer(t1: Seq<TokV>, t2: Seq<TokV>, d: int, j: int, e1: int, e2: int, g: nat, a: nat, stop: Stop)
    requires
        0 <= j <= e1 <= t1.len(),
        0 <= j - d,
        e2 <= t2.len(),
        forall|k: int| j <= k < scan(t1, j, e1, g, a, stop) ==> k - d < e2 && t2[k - d] == #[trigger] t1[k]
            && stops_at(t2, k - d, stop) == stops_at(t1, k, stop)
            && joined_to_previous(t2, k - d) == joined_to_previous(t1, k),
        scan(t1, j, e1, g, a, stop) - d == e2 || (scan(t1, j, e1, g, a, stop) - d < e2
            && stops_at(t2, scan(t1, j, e1, g, a, stop) - d, stop)
            && (scan(t1, j, e1, g, a, stop) == e1 ==> walk(t1, j, e1, g, a) == (0nat, 0nat))),
    ensures
        scan(t2, j - d, e2, g, a, stop) == scan(t1, j, e1, g, a, stop) - d,
    decreases e1 - j,
{
    let r = scan(t1, j, e1, g, a, stop);
    if j == e1 {
    } else if g == 0 && a == 0 && stops_at(t1, j, stop) {
    } else {
        lemma_scan_bounds(t1, j + 1, e1, 0, 0, stop);
        assert(r > j) by {
            match t1[j] {
                TokV::Open(_) => lemma_scan_bounds(t1, j + 1, e1, g + 1, a, stop),
                TokV::Close(_) => lemma_scan_bounds(t1, j + 1, e1, if g > 0 { (g - 1) as nat } else { 0 }, a, stop),
                TokV::Punct(c, _) => if g == 0 && c == '<' {
                    lemma_scan_bounds(t1, j + 1, e1, g, a + 1, stop)
                } else if g == 0 && c == '>' && !joined_to_previous(t1, j) && a > 0 {
                    lemma_scan_bounds(t1, j + 1, e1, g, (a - 1) as nat, stop)
                } else {
                    lemma_scan_bounds(t1, j + 1, e1, g, a, stop)
                },
                _ => lemma_scan_bounds(t1, j + 1, e1, g, a, stop),
            }
        }
        assert(t2[j - d] == t1[j]);
        let (g2, a2): (nat, nat) = match t1[j] {
            TokV::Open(_) => (g + 1, a),
            TokV::Close(_) => (if g > 0 { (g - 1) as nat } else { 0 }, a),
            TokV::Punct(c, _) => if g == 0 && c == '<' {
                (g, a + 1)
            } else if g == 0 && c == '>' && !joined_to_previous(t1, j) && a > 0 {
                (g, (a - 1) as nat)
            } else {
                (g, a)
            },
            _ => (g, a),
        };
        assert(scan(t1, j, e1, g, a, stop) == scan(t1, j + 1, e1, g2, a2, stop));
        assert(walk(t1, j, e1, g, a) == walk(t1, j + 1, e1, g2, a2));
        assert(scan(t2, j - d, e2, g, a, stop) == scan(t2, j - d + 1, e2, g2, a2, stop));
        lemma_scan_transfer(t1, t2, d, j + 1, e1, e2, g2, a2, stop);
    }
}

/// `walk` gives the same state over two stretches that agree token by
/// token and in what joins each token to the one before it.
pub proof fn lemma_walk_transfer(t1: Seq<TokV>, t2: Seq<TokV>, d: int, j: int, e1: int, g: nat, a: nat)
    requires
        0 <= j,
        0 <= j - d,
        e1 <= t1.len(),
        e1 - d <= t2.len(),
        forall|k: int| j <= k < e1 ==> t2[k - d] == #[trigger] t1[k]
            && joined_to_previous(t2, k - d) == joined_to_previous(t1, k),
    ensures
        walk(t2, j - d, e1 - d, g, a) == walk(t1, j, e1, g, a),
    decreases e1 - j,
{
    if j < e1 {
        assert(t2[j - d] == t1[j] && joined_to_previous(t2, j - d) == joined_to_previous(t1, j));
        let (g2, a2): (nat, nat) = match t1[j] {
            TokV::Open(_) => (g + 1, a),
            TokV::Close(_) => (if g > 0 { (g - 1) as nat } else { 0 }, a),
            TokV::Punct(c, _) => if g == 0 && c == '<' {
                (g, a + 1)
            } else if g == 0 && c == '>' && !joined_to_previous(t1, j) && a > 0 {
                (g, (a - 1) as nat)
            } else {
                (g, a)
            },
            _ => (g, a),
        };
        assert(walk(t1, j, e1, g, a) == walk(t1, j + 1, e1, g2, a2));
        assert(walk(t2, j - d, e1 - d, g, a) == walk(t2, j - d + 1, e1 - d, g2, a2));
        lemma_walk_transfer(t1, t2, d, j + 1, e1, g2, a2);
    }
}

/// The two tokens open, close, or do neither alike.
pub open spec fn same_shape(x: TokV, y: TokV) -> bool {
    (x is Open <==> y is Open) && (x is Close <==> y is Close)
}

/// `close_of` over `t2` finds the closing token `d` before where it is in
/// `t1`, or one after that when `t2` has one more token there that neither
/// opens nor closes, when the two agree in shape on the tokens before it.
pub proof fn lemma_close_transfer(t1: Seq<TokV>, t2: Seq<TokV>, d: int, j: int, e1: int, e2: int, dd: nat, x: int)
    requires
        0 <= j <= e1 <= t1.len(),
        0 <= j - d,
        e2 <= t2.len(),
        close_of(t1, j, e1, dd) < e1,
        forall|k: int| j <= k < close_of(t1, j, e1, dd) ==> k - d < e2 && same_shape(#[trigger] t1[k], t2[k - d]),
        x == 0 || x == 1,
        close_of(t1, j, e1, dd) - d + x < e2,
        t2[close_of(t1, j, e1, dd) - d + x] is Close,
        x == 1 ==> !(t2[close_of(t1, j, e1, dd) - d] is Open) && !(t2[close_of(t1, j, e1, dd) - d] is Close),
    ensures
        close_of(t2, j - d, e2, dd) == close_of(t1, j, e1, dd) - d + x,
    decreases e1 - j,
{
    let r = close_of(t1, j, e1, dd);
    lemma_close_of_bounds(t1, j, e1, dd);
    if r == j {
        if t1[j] is Open {
            lemma_close_of_bounds(t1, j + 1, e1, dd + 1);
        }
        assert(t1[j] is Close && dd == 0) by {
            if !(t1[j] is Close) {
                if !(t1[j] is Open) {
                    lemma_close_of_bounds(t1, j + 1, e1, dd);
                }
            } else if dd != 0 {
                lemma_close_of_bounds(t1, j + 1, e1, (dd - 1) as nat);
            }
        }
        if x == 1 {
            assert(close_of(t2, j - d + 1, e2, 0) == j - d + 1);
        }
    } else {
        lemma_close_of_bounds(t1, j, e1, dd);
        assert(same_shape(t1[j], t2[j - d]));
        match t1[j] {
            TokV::Open(_) => {
                lemma_close_transfer(t1, t2, d, j + 1, e1, e2, dd + 1, x);
            },
            TokV::Close(_) => {
                lemma_close_transfer(t1, t2, d, j + 1, e1, e2, (dd - 1) as nat, x);
            },
            _ => {
                lemma_close_transfer(t1, t2, d, j + 1, e1, e2, dd, x);
            },
        }
    }
}

/// A span moved `d` positions towards the start.
pub open spec fn shift(s: Span, d: usize) -> Span {
    Span { start: (s.start - d) as usize, end: (s.end - d) as usize }
}

/// A parameter whose spans are moved `d` positions towards the start.
pub open spec fn shift_arg(a: VirtFnArg, d: usize) -> VirtFnArg {
    VirtFnArg {
        attrs: shift(a.attrs, d),
        kind: match a.kind {
            VirtFnArgKind::Variadic(s) => VirtFnArgKind::Variadic(shift(s, d)),
            VirtFnArgKind::Typed { pat, ty } => VirtFnArgKind::Typed { pat: shift(pat, d), ty: shift(ty, d) },
        },
    }
}

/// Parameters whose spans are moved `d` positions towards the start.
pub open spec fn shift_args(list: Seq<VirtFnArg>, d: usize) -> Seq<VirtFnArg> {
    list.map_values(|a: VirtFnArg| shift_arg(a, d))
}

/// A token that may stand before a parameter: `(` or `,`.
pub open spec fn sep_before(t: TokV) -> bool {
    t is Open || is_punct(t, ',')
}

pub proof fn lemma_valid_transfer(k: Syntax, t1: Seq<TokV>, s1: Span, t2: Seq<TokV>, s2: Span)
    requires
        s1.of(t1) == s2.of(t2),
    ensures
        valid(k, t1, s1) == valid(k, t2, s2),
{
}

/// The outer attributes end `d` earlier in `t2` when it agrees with `t1`
/// on them and on the token after them.
pub proof fn lemma_attrs_transfer(t1: Seq<TokV>, t2: Seq<TokV>, d: usize, s: usize, e1: usize, e2: usize)
    requires
        d <= s <= e1 <= t1.len(),
        e2 <= t2.len(),
        p_attrs_end(t1, s, e1) is Ok,
        p_attrs_end(t1, s, e1)->Ok_0 < e1,
        p_attrs_end(t1, s, e1)->Ok_0 - d < e2,
        forall|k: int| s <= k <= p_attrs_end(t1, s, e1)->Ok_0 ==> k - d < e2 && t2[k - d] == #[trigger] t1[k],
    ensures
        p_attrs_end(t2, (s - d) as usize, e2) == Ok::<usize, ParseError>((p_attrs_end(t1, s, e1)->Ok_0 - d) as usize),
    decreases e1 - s,
{
    lemma_attrs_end(t1, s, e1);
    let p1 = p_attrs_end(t1, s, e1)->Ok_0;
    assert(t2[s - d] == t1[s as int]);
    if punct_is(t1, s as int, e1 as int, '#') && open_is(t1, s + 1, e1 as int, Delim::Bracket) {
        let c1 = close_of(t1, s + 2, e1 as int, 0);
        lemma_close_of_bounds(t1, s + 2, e1 as int, 0);
        lemma_attrs_end(t1, (c1 + 1) as usize, e1);
        assert(t2[s + 1 - d] == t1[s + 1]);
        assert(t2[c1 - d] == t1[c1]);
        lemma_close_transfer(t1, t2, d as int, s + 2, e1 as int, e2 as int, 0, 0);
        lemma_attrs_transfer(t1, t2, d, (c1 + 1) as usize, e1, e2);
    }
}

/// The tokens before positions `k` of `ts` and `kd` of `out` are equal,
/// or both `(` or `,`.
pub open spec fn same_before(ts: Seq<TokV>, k: int, out: Seq<TokV>, kd: int) -> bool {
    1 <= k && 1 <= kd && (ts[k - 1] == out[kd - 1] || (sep_before(ts[k - 1]) && sep_before(out[kd - 1])))
}

/// `pattern: Type` read from `ts` at `p1` reads back from `out` at
/// `p1 - d`, where `out` holds the same tokens but a lone `:` between them
/// and a `,` after them.
#[verifier::rlimit(30)]
#[verifier::spinoff_prover]
proof fn lemma_typed_transfer(ts: Seq<TokV>, out: Seq<TokV>, d: usize, p1: usize, c: usize, cc: usize,
    pat: Span, ty: Span, q: usize)
    requires
        d < p1 <= c <= ts.len(),
        cc <= out.len(),
        p_fn_arg_kind(ts, p1, c) == Ok::<(VirtFnArgKind, usize), ParseError>((VirtFnArgKind::Typed { pat, ty }, q)),
        q - d < cc,
        forall|k: int| p1 <= k < q && k != pat.end ==> out[k - d] == #[trigger] ts[k],
        out[pat.end - d] == pn(':'),
        out[q - d] == pn(','),
        same_before(ts, p1 as int, out, p1 - d),
        balanced(ts, ty),
    ensures
        p_fn_arg_kind(out, (p1 - d) as usize, cc)
            == Ok::<(VirtFnArgKind, usize), ParseError>((VirtFnArgKind::Typed { pat: shift(pat, d), ty: shift(ty, d) }, (q - d) as usize)),
{
    let q1 = pat.end;
    lemma_scan_bounds(ts, p1 as int, c as int, 0, 0, Stop::Colon);
    lemma_scan_bounds(ts, q1 + 1, c as int, 0, 0, Stop::Comma);
    assert(pat == Span { start: p1, end: q1 } && ty == Span { start: (q1 + 1) as usize, end: q });
    assert(p1 < q1 && q1 + 1 < q && q <= c);
    assert(is_punct(ts[q1 as int], ':'));
    // Not `...`.
    assert(out[p1 - d] == ts[p1 as int]);
    assert(p1 + 1 != q1 ==> out[p1 + 1 - d] == ts[p1 + 1]);
    assert(p1 + 2 != q1 ==> out[p1 + 2 - d] == ts[p1 + 2]);
    assert(dots_at(out, p1 - d, cc as int) == dots_at(ts, p1 as int, c as int));
    // The pattern.
    assert forall|k: int| p1 <= k < scan(ts, p1 as int, c as int, 0, 0, Stop::Colon) implies k - d < cc
        && out[k - d] == #[trigger] ts[k]
        && stops_at(out, k - d, Stop::Colon) == stops_at(ts, k, Stop::Colon)
        && joined_to_previous(out, k - d) == joined_to_previous(ts, k) by {
        if k > p1 {
            assert(out[k - d - 1] == ts[k - 1]);
        }
        if k + 1 < q1 {
            assert(out[k + 1 - d] == ts[k + 1]);
        }
    }
    assert(out[q1 - d - 1] == ts[q1 - 1]);
    lemma_scan_transfer(ts, out, d as int, p1 as int, c as int, cc as int, 0, 0, Stop::Colon);
    assert(shift(pat, d).of(out) =~= pat.of(ts));
    lemma_valid_transfer(Syntax::Pat, ts, pat, out, shift(pat, d));
    // The type.
    assert forall|k: int| q1 + 1 <= k < scan(ts, q1 + 1, c as int, 0, 0, Stop::Comma) implies k - d < cc
        && out[k - d] == #[trigger] ts[k]
        && stops_at(out, k - d, Stop::Comma) == stops_at(ts, k, Stop::Comma)
        && joined_to_previous(out, k - d) == joined_to_previous(ts, k) by {
        if k > q1 + 1 {
            assert(out[k - d - 1] == ts[k - 1]);
        }
    }
    lemma_scan_transfer(ts, out, d as int, q1 + 1, c as int, cc as int, 0, 0, Stop::Comma);
    assert(shift(ty, d).of(out) =~= ty.of(ts));
    lemma_valid_transfer(Syntax::Type, ts, ty, out, shift(ty, d));
    lemma_walk_transfer(ts, out, d as int, q1 + 1, q as int, 0, 0);
}

/// A parameter printed from `ts` reads back from the printed tokens, `d`
/// earlier, as the same parameter with its spans moved, when a comma
/// follows it and its type closes what it opens.
#[verifier::rlimit(30)]
#[verifier::spinoff_prover]
pub proof fn lemma_fn_arg_transfer(ts: Seq<TokV>, out: Seq<TokV>, d: usize, s: usize, c: usize, cc: usize, a: VirtFnArg, q: usize)
    requires
        d < s <= c <= ts.len(),
        cc <= out.len(),
        p_fn_arg(ts, s, c) == Ok::<(VirtFnArg, usize), ParseError>((a, q)),
        q - d < cc,
        out.subrange(s - d, q - d) == s_fn_arg(seq![], ts, a),
        out[q - d] == pn(','),
        sep_before(ts[s - 1]),
        sep_before(out[s - d - 1]),
        a.kind matches VirtFnArgKind::Typed { ty, .. } ==> balanced(ts, ty),
    ensures
        p_fn_arg(out, (s - d) as usize, cc) == Ok::<(VirtFnArg, usize), ParseError>((shift_arg(a, d), (q - d) as usize)),
        s_fn_arg(seq![], out, shift_arg(a, d)) == s_fn_arg(seq![], ts, a),
{
    lemma_fn_arg(ts, s, c);
    lemma_attrs_end(ts, s, c);
    let (attrs, p1) = p_attrs(ts, s, c)->Ok_0;
    assert(attrs == Span { start: s, end: p1 });
    match a.kind {
        VirtFnArgKind::Variadic(dots) => {
            assert(dots == Span { start: p1, end: (p1 + 3) as usize } && q == p1 + 3);
            assert(s_fn_arg(seq![], ts, a) =~= ts.subrange(s as int, q as int));
            assert forall|k: int| s <= k < q implies k - d < cc && out[k - d] == #[trigger] ts[k] by {
                assert(out[k - d] == out.subrange(s - d, q - d)[k - s]);
            }
            lemma_attrs_transfer(ts, out, d, s, c, cc);
            assert(shift(attrs, d).of(out) =~= attrs.of(ts));
            lemma_valid_transfer(Syntax::OuterAttrs, ts, attrs, out, shift(attrs, d));
            assert(out[p1 + 1 - d] == ts[p1 + 1]);
            assert(out[p1 + 2 - d] == ts[p1 + 2]);
            assert(dots_at(out, p1 - d, cc as int));
            assert(span_of(out, shift(dots, d)) =~= span_of(ts, dots));
            assert(span_of(out, shift(attrs, d)) =~= span_of(ts, attrs));
        },
        VirtFnArgKind::Typed { pat, ty } => {
            let q1 = pat.end;
            lemma_scan_bounds(ts, p1 as int, c as int, 0, 0, Stop::Colon);
            lemma_scan_bounds(ts, q1 + 1, c as int, 0, 0, Stop::Comma);
            assert(pat == Span { start: p1, end: q1 } && ty == Span { start: (q1 + 1) as usize, end: q });
            assert(s_fn_arg(seq![], ts, a) =~= ts.subrange(s as int, q1 as int).push(pn(':'))
                + ts.subrange(q1 + 1, q as int));
            assert forall|k: int| s <= k < q && k != q1 implies k - d < cc && out[k - d] == #[trigger] ts[k] by {
                assert(out[k - d] == out.subrange(s - d, q - d)[k - s]);
            }
            assert(out[q1 - d] == out.subrange(s - d, q - d)[q1 - s]);
            lemma_attrs_transfer(ts, out, d, s, c, cc);
            assert(shift(attrs, d).of(out) =~= attrs.of(ts));
            lemma_valid_transfer(Syntax::OuterAttrs, ts, attrs, out, shift(attrs, d));
            if p1 > s {
                assert(out[p1 - d - 1] == ts[p1 - 1]);
            }
            lemma_typed_transfer(ts, out, d, p1, c, cc, pat, ty, q);
            assert(span_of(out, shift(attrs, d)) =~= span_of(ts, attrs));
            assert(span_of(out, shift(pat, d)) =~= span_of(ts, pat));
            assert(span_of(out, shift(ty, d)) =~= span_of(ts, ty));
        },
    }
}

/// The parameter's type, when it has one, closes what it opens.
pub open spec fn arg_balanced(ts: Seq<TokV>, a: VirtFnArg) -> bool {
    match a.kind {
        VirtFnArgKind::Typed { ty, .. } => balanced(ts, ty),
        VirtFnArgKind::Variadic(_) => true,
    }
}

/// A parameter prints as many tokens as it was read from, of the same
/// shapes (only its `:` may differ in spacing).
proof fn lemma_fn_arg_print(ts: Seq<TokV>, s: usize, c: usize, a: VirtFnArg, q: usize)
    requires
        s <= c <= ts.len(),
        p_fn_arg(ts, s, c) == Ok::<(VirtFnArg, usize), ParseError>((a, q)),
    ensures
        s < q <= c,
        s_fn_arg(seq![], ts, a).len() == q - s,
        forall|k: int| s <= k < q ==> same_shape(#[trigger] ts[k], s_fn_arg(seq![], ts, a)[k - s]),
{
    lemma_fn_arg(ts, s, c);
    lemma_attrs_end(ts, s, c);
    let (attrs, p1) = p_attrs(ts, s, c)->Ok_0;
    match a.kind {
        VirtFnArgKind::Variadic(dots) => {
            assert(s_fn_arg(seq![], ts, a) =~= ts.subrange(s as int, q as int));
        },
        VirtFnArgKind::Typed { pat, ty } => {
            let q1 = pat.end;
            lemma_scan_bounds(ts, p1 as int, c as int, 0, 0, Stop::Colon);
            lemma_scan_bounds(ts, q1 + 1, c as int, 0, 0, Stop::Comma);
            assert(s_fn_arg(seq![], ts, a) =~= ts.subrange(s as int, q1 as int).push(pn(':'))
                + ts.subrange(q1 + 1, q as int));
            assert(is_punct(ts[q1 as int], ':'));
        },
    }
}

pub proof fn lemma_fn_args_app(acc: Seq<TokV>, ts: Seq<TokV>, list: Seq<VirtFnArg>)
    ensures
        s_fn_args(acc, ts, list) == acc + s_fn_args(seq![], ts, list),
    decreases list.len(),
{
    if list.len() == 0 {
        assert(acc =~= acc + Seq::<TokV>::empty());
    } else {
        lemma_fn_args_app(acc, ts, list.drop_last());
        assert(s_fn_args(acc, ts, list) =~= acc + s_fn_args(seq![], ts, list));
    }
}

/// The parameters print as the first, a comma, and the others.
proof fn lemma_fn_args_front(ts: Seq<TokV>, list: Seq<VirtFnArg>)
    requires
        list.len() > 0,
    ensures
        s_fn_args(seq![], ts, list) == s_fn_arg(seq![], ts, list[0]).push(pn(','))
            + s_fn_args(seq![], ts, list.drop_first()),
    decreases list.len(),
{
    if list.len() == 1 {
        assert(list.drop_first() =~= Seq::<VirtFnArg>::empty());
        assert(list.drop_last() =~= Seq::<VirtFnArg>::empty());
        assert(s_fn_args(seq![], ts, list) =~= s_fn_arg(seq![], ts, list[0]).push(pn(','))
            + s_fn_args(seq![], ts, list.drop_first()));
    } else {
        lemma_fn_args_front(ts, list.drop_last());
        assert(list.drop_last().drop_first() =~= list.drop_first().drop_last());
        let h = s_fn_arg(seq![], ts, list[0]).push(pn(','));
        let m = s_fn_args(seq![], ts, list.drop_first().drop_last());
        assert(s_fn_arg(h + m, ts, list.last()) =~= h + s_fn_arg(m, ts, list.last()));
        assert(s_fn_args(seq![], ts, list) =~= h + s_fn_args(seq![], ts, list.drop_first()));
    }
}

/// The parameters read are appended to what was read before.
proof fn lemma_fn_args_prefix(ts: Seq<TokV>, p: usize, end: usize, acc: Seq<VirtFnArg>)
    ensures
        p_fn_args(ts, p, end, acc) is Ok ==> acc.len() <= p_fn_args(ts, p, end, acc)->Ok_0.0.len()
            && p_fn_args(ts, p, end, acc)->Ok_0.0.subrange(0, acc.len() as int) == acc,
    decreases end - p,
{
    if p < end {
        if let Ok((a, q)) = p_fn_arg(ts, p, end) {
            if q < end && punct_is(ts, q as int, end as int, ',') {
                lemma_fn_arg(ts, p, end);
                lemma_fn_args_prefix(ts, (q + 1) as usize, end, acc.push(a));
                let v = p_fn_args(ts, p, end, acc)->Ok_0.0;
                if p_fn_args(ts, p, end, acc) is Ok {
                    assert(v.subrange(0, acc.len() as int) =~= v.subrange(0, acc.len() as int + 1).drop_last());
                }
            } else if q >= end {
                assert(acc.push(a).subrange(0, acc.len() as int) =~= acc);
            }
        }
    } else {
        assert(acc.subrange(0, acc.len() as int) =~= acc);
    }
}

/// What the first parameter read is, and what is read after it.
proof fn lemma_args_first(ts: Seq<TokV>, s: usize, c: usize, acc1: Seq<VirtFnArg>, rest: Seq<VirtFnArg>)
    requires
        s < c <= ts.len(),
        p_fn_args(ts, s, c, acc1) is Ok,
        p_fn_args(ts, s, c, acc1)->Ok_0.0 == acc1 + rest,
    ensures
        p_fn_arg(ts, s, c) is Ok,
        rest.len() >= 1,
        rest[0] == p_fn_arg(ts, s, c)->Ok_0.0,
        p_fn_arg(ts, s, c)->Ok_0.1 >= c ==> rest.len() == 1,
        p_fn_arg(ts, s, c)->Ok_0.1 < c ==> {
            let (a, q) = p_fn_arg(ts, s, c)->Ok_0;
            &&& punct_is(ts, q as int, c as int, ',')
            &&& p_fn_args(ts, (q + 1) as usize, c, acc1.push(a)) is Ok
            &&& p_fn_args(ts, (q + 1) as usize, c, acc1.push(a))->Ok_0.0 == acc1.push(a) + rest.drop_first()
        },
{
    let (a, q) = p_fn_arg(ts, s, c)->Ok_0;
    lemma_fn_arg(ts, s, c);
    if q >= c {
        assert((acc1 + rest) =~= acc1.push(a));
        assert((acc1 + rest).len() == acc1.len() + 1);
        assert((acc1 + rest)[acc1.len() as int] == rest[0]);
    } else {
        lemma_fn_args_prefix(ts, (q + 1) as usize, c, acc1.push(a));
        let v = p_fn_args(ts, (q + 1) as usize, c, acc1.push(a))->Ok_0.0;
        assert(v.subrange(0, acc1.len() as int + 1)[acc1.len() as int] == a);
        assert(v == acc1 + rest);
        assert(v[acc1.len() as int] == rest[0]);
        assert(acc1 + rest =~= acc1.push(a) + rest.drop_first());
    }
}

/// Where the first printed parameter and the comma after it stand.
#[verifier::rlimit(50)]
#[verifier::spinoff_prover]
proof fn lemma_args_step(ts: Seq<TokV>, out: Seq<TokV>, d: usize, s: usize, c: usize, cc: usize,
    rest: Seq<VirtFnArg>, a: VirtFnArg, q: usize)
    requires
        d < s <= c <= ts.len(),
        cc <= out.len(),
        s - d <= cc,
        out.subrange(s - d, cc as int) == s_fn_args(seq![], ts, rest),
        rest.len() >= 1,
        rest[0] == a,
        p_fn_arg(ts, s, c) == Ok::<(VirtFnArg, usize), ParseError>((a, q)),
    ensures
        s < q <= c,
        q - d < cc,
        out.subrange(s - d, q - d) == s_fn_arg(seq![], ts, a),
        out[q - d] == pn(','),
        out.subrange(q + 1 - d, cc as int) == s_fn_args(seq![], ts, rest.drop_first()),
        forall|k: int| s <= k < q ==> same_shape(#[trigger] ts[k], out[k - d]),
{
    lemma_fn_arg_print(ts, s, c, a, q);
    lemma_fn_args_front(ts, rest);
    let pa = s_fn_arg(seq![], ts, a);
    let w = out.subrange(s - d, cc as int);
    assert(w.len() == pa.len() + 1 + s_fn_args(seq![], ts, rest.drop_first()).len());
    assert(out.subrange(s - d, q - d) =~= w.subrange(0, q - s));
    assert(w.subrange(0, q - s) =~= pa);
    assert(out[q - d] == w[q - s]);
    assert(out.subrange(q + 1 - d, cc as int) =~= w.subrange(q - s + 1, w.len() as int));
    assert(w.subrange(q - s + 1, w.len() as int) =~= s_fn_args(seq![], ts, rest.drop_first()));
    assert forall|k: int| s <= k < q implies same_shape(#[trigger] ts[k], out[k - d]) by {
        assert(out[k - d] == w[k - s]);
        assert(w[k - s] == pa[k - s]);
    }
}

proof fn lemma_out_args_unfold(out: Seq<TokV>, sd: usize, cc: usize, acc2: Seq<VirtFnArg>, sa: VirtFnArg, qd: usize)
    requires
        sd < cc <= out.len(),
        p_fn_arg(out, sd, cc) == Ok::<(VirtFnArg, usize), ParseError>((sa, qd)),
        qd < cc,
        out[qd as int] == pn(','),
    ensures
        p_fn_args(out, sd, cc, acc2) == p_fn_args(out, (qd + 1) as usize, cc, acc2.push(sa)),
{
    lemma_fn_arg(out, sd, cc);
}

/// The parameters printed from `ts` read back from the printed tokens, `d`
/// earlier, as the same parameters with their spans moved; the printed
/// list has the shapes of the list it was read from, and one more comma
/// when that list had no comma after its last parameter.
#[verifier::rlimit(60)]
#[verifier::spinoff_prover]
pub proof fn lemma_fn_args_transfer(ts: Seq<TokV>, out: Seq<TokV>, d: usize, s: usize, c: usize, cc: usize,
    acc1: Seq<VirtFnArg>, acc2: Seq<VirtFnArg>, rest: Seq<VirtFnArg>)
    requires
        d < s <= c <= ts.len(),
        cc <= out.len(),
        p_fn_args(ts, s, c, acc1) is Ok,
        p_fn_args(ts, s, c, acc1)->Ok_0.0 == acc1 + rest,
        s - d <= cc,
        out.subrange(s - d, cc as int) == s_fn_args(seq![], ts, rest),
        sep_before(ts[s - 1]),
        sep_before(out[s - d - 1]),
        forall|i: int| 0 <= i < rest.len() ==> arg_balanced(ts, #[trigger] rest[i]),
    ensures
        p_fn_args(out, (s - d) as usize, cc, acc2)
            == Ok::<(Seq<VirtFnArg>, usize), ParseError>((acc2 + shift_args(rest, d), cc)),
        forall|i: int| 0 <= i < rest.len()
            ==> s_fn_arg(seq![], out, shift_arg(#[trigger] rest[i], d)) == s_fn_arg(seq![], ts, rest[i]),
        cc - (s - d) == c - s || (cc - (s - d) == c - s + 1 && out[cc - 1] == pn(',')),
        forall|k: int| s <= k < c ==> same_shape(#[trigger] ts[k], out[k - d]),
    decreases c - s,
{
    if s >= c {
        assert(rest.len() == 0) by {
            assert((acc1 + rest).len() == acc1.len());
        }
        assert(s_fn_args(seq![], ts, rest) =~= Seq::<TokV>::empty());
        assert(out.subrange(s - d, cc as int).len() == 0);
        assert(shift_args(rest, d) =~= Seq::<VirtFnArg>::empty());
        assert(acc2 + shift_args(rest, d) =~= acc2);
    } else {
        lemma_args_first(ts, s, c, acc1, rest);
        let (a, q) = p_fn_arg(ts, s, c)->Ok_0;
        let sa = shift_arg(a, d);
        let rest2 = rest.drop_first();
        lemma_args_step(ts, out, d, s, c, cc, rest, a, q);
        assert(arg_balanced(ts, rest[0]));
        lemma_fn_arg_transfer(ts, out, d, s, c, cc, a, q);
        lemma_out_args_unfold(out, (s - d) as usize, cc, acc2, sa, (q - d) as usize);
        if q >= c {
            lemma_args_last(out, d, s, c, cc, acc2, rest, sa, q);
        } else {
            assert forall|i: int| 0 <= i < rest2.len() implies arg_balanced(ts, #[trigger] rest2[i]) by {
                assert(rest2[i] == rest[i + 1]);
            }
            lemma_fn_args_transfer(ts, out, d, (q + 1) as usize, c, cc, acc1.push(a), acc2.push(sa), rest2);
            lemma_args_cons(ts, out, d, s, c, cc, acc2, rest, sa, q);
        }
    }
}

proof fn lemma_args_last(out: Seq<TokV>, d: usize, s: usize, c: usize, cc: usize, acc2: Seq<VirtFnArg>,
    rest: Seq<VirtFnArg>, sa: VirtFnArg, q: usize)
    requires
        d < s < q,
        q == c,
        rest.len() == 1,
        shift_arg(rest[0], d) == sa,
        q - d < cc <= out.len(),
        out.subrange(q + 1 - d, cc as int) == Seq::<TokV>::empty(),
        out[q - d] == pn(','),
        p_fn_args(out, (s - d) as usize, cc, acc2) == p_fn_args(out, (q - d + 1) as usize, cc, acc2.push(sa)),
    ensures
        p_fn_args(out, (s - d) as usize, cc, acc2)
            == Ok::<(Seq<VirtFnArg>, usize), ParseError>((acc2 + shift_args(rest, d), cc)),
        cc - (s - d) == c - s + 1 && out[cc - 1] == pn(','),
{
    assert(out.subrange(q + 1 - d, cc as int).len() == cc - (q + 1 - d));
    assert(cc == q - d + 1);
    assert(shift_args(rest, d) =~= seq![sa]);
    assert(acc2 + shift_args(rest, d) =~= acc2.push(sa));
}

proof fn lemma_args_cons(ts: Seq<TokV>, out: Seq<TokV>, d: usize, s: usize, c: usize, cc: usize, acc2: Seq<VirtFnArg>,
    rest: Seq<VirtFnArg>, sa: VirtFnArg, q: usize)
    requires
        d < s < q < c,
        rest.len() >= 1,
        shift_arg(rest[0], d) == sa,
        s_fn_arg(seq![], out, sa) == s_fn_arg(seq![], ts, rest[0]),
        p_fn_args(out, (s - d) as usize, cc, acc2) == p_fn_args(out, (q - d + 1) as usize, cc, acc2.push(sa)),
        p_fn_args(out, (q + 1 - d) as usize, cc, acc2.push(sa))
            == Ok::<(Seq<VirtFnArg>, usize), ParseError>((acc2.push(sa) + shift_args(rest.drop_first(), d), cc)),
        forall|i: int| 0 <= i < rest.drop_first().len()
            ==> s_fn_arg(seq![], out, shift_arg(#[trigger] rest.drop_first()[i], d)) == s_fn_arg(seq![], ts, rest.drop_first()[i]),
        cc - (q + 1 - d) == c - (q + 1) || (cc - (q + 1 - d) == c - (q + 1) + 1 && out[cc - 1] == pn(',')),
        forall|k: int| q + 1 <= k < c ==> same_shape(#[trigger] ts[k], out[k - d]),
        forall|k: int| s <= k < q ==> same_shape(#[trigger] ts[k], out[k - d]),
        is_punct(ts[q as int], ','),
        out[q - d] == pn(','),
    ensures
        p_fn_args(out, (s - d) as usize, cc, acc2)
            == Ok::<(Seq<VirtFnArg>, usize), ParseError>((acc2 + shift_args(rest, d), cc)),
        forall|i: int| 0 <= i < rest.len()
            ==> s_fn_arg(seq![], out, shift_arg(#[trigger] rest[i], d)) == s_fn_arg(seq![], ts, rest[i]),
        cc - (s - d) == c - s || (cc - (s - d) == c - s + 1 && out[cc - 1] == pn(',')),
        forall|k: int| s <= k < c ==> same_shape(#[trigger] ts[k], out[k - d]),
{
    let rest2 = rest.drop_first();
    assert(acc2.push(sa) + shift_args(rest2, d) =~= acc2 + shift_args(rest, d));
    assert forall|i: int| 0 <= i < rest.len() implies s_fn_arg(seq![], out, shift_arg(#[trigger] rest[i], d))
        == s_fn_arg(seq![], ts, rest[i]) by {
        if i > 0 {
            assert(rest[i] == rest2[i - 1]);
        }
    }
    assert forall|k: int| s <= k < c implies same_shape(#[trigger] ts[k], out[k - d]) by {
        if k == q {
            assert(out[k - d] == pn(','));
        }
    }
}

/// The printed parameters are as many tokens as those read, or one more.
pub proof fn lemma_fn_args_len(ts: Seq<TokV>, s: usize, c: usize, acc1: Seq<VirtFnArg>, rest: Seq<VirtFnArg>)
    requires
        s <= c <= ts.len(),
        p_fn_args(ts, s, c, acc1) is Ok,
        p_fn_args(ts, s, c, acc1)->Ok_0.0 == acc1 + rest,
    ensures
        c - s <= s_fn_args(seq![], ts, rest).len() <= c - s + 1,
    decreases c - s,
{
    if s >= c {
        assert(rest.len() == 0) by {
            assert((acc1 + rest).len() == acc1.len());
        }
    } else {
        lemma_args_first(ts, s, c, acc1, rest);
        let (a, q) = p_fn_arg(ts, s, c)->Ok_0;
        lemma_fn_arg_print(ts, s, c, a, q);
        lemma_fn_args_front(ts, rest);
        if q < c {
            lemma_fn_args_len(ts, (q + 1) as usize, c, acc1.push(a), rest.drop_first());
        } else {
            assert(rest.drop_first() =~= Seq::<VirtFnArg>::empty());
        }
    }
}

/// Two printed functions agree: the same name, return type, and number of
/// parameters, each printing the same tokens.
pub open spec fn same_fn(out: Seq<TokV>, g: VirtFnV, ts: Seq<TokV>, f: VirtFnV) -> bool {
    &&& span_of(out, g.name) == span_of(ts, f.name)
    &&& span_of(out, g.output) == span_of(ts, f.output)
    &&& g.inputs.len() == f.inputs.len()
    &&& forall|i: int| 0 <= i < f.inputs.len()
        ==> s_fn_arg(seq![], out, #[trigger] g.inputs[i]) == s_fn_arg(seq![], ts, f.inputs[i])
}

/// Parameters that print the same tokens one by one print the same list.
pub proof fn lemma_fn_args_same(ts: Seq<TokV>, l1: Seq<VirtFnArg>, out: Seq<TokV>, l2: Seq<VirtFnArg>)
    requires
        l1.len() == l2.len(),
        forall|i: int| 0 <= i < l1.len() ==> s_fn_arg(seq![], out, #[trigger] l2[i]) == s_fn_arg(seq![], ts, l1[i]),
    ensures
        s_fn_args(seq![], out, l2) == s_fn_args(seq![], ts, l1),
    decreases l1.len(),
{
    if l1.len() > 0 {
        assert forall|i: int| 0 <= i < l1.drop_last().len() implies s_fn_arg(seq![], out, #[trigger] l2.drop_last()[i])
            == s_fn_arg(seq![], ts, l1.drop_last()[i]) by {
            assert(l2.drop_last()[i] == l2[i]);
        }
        lemma_fn_args_same(ts, l1.drop_last(), out, l2.drop_last());
        let m = s_fn_args(seq![], ts, l1.drop_last());
        assert(s_fn_arg(seq![], out, l2.last()) == s_fn_arg(seq![], ts, l1.last()));
        assert(s_fn_arg(m, out, l2.last()) =~= m + s_fn_arg(seq![], out, l2.last()));
        assert(s_fn_arg(m, ts, l1.last()) =~= m + s_fn_arg(seq![], ts, l1.last()));
    }
}

/// What reading a virtual function at `p` found, and the tokens it prints
/// as: `fn`, its name, `(`, its parameters, `)` and its return type.
#[verifier::rlimit(50)]
#[verifier::spinoff_prover]
pub proof fn lemma_virt_fn_layout(ts: Seq<TokV>, p: usize, end: usize, f: VirtFnV, q: usize)
    requires
        p <= end <= ts.len(),
        p_virt_fn(ts, p, end) == Ok::<(VirtFnV, usize), ParseError>((f, q)),
    ensures
        f.name == (Span { start: (p + 1) as usize, end: (p + 2) as usize }),
        ident_ok(ts, p + 1, end as int),
        ts[p + 2] == TokV::Open(Delim::Paren),
        f.args.start == p + 3,
        p + 3 <= f.args.end < end,
        ts[f.args.end as int] is Close,
        close_of(ts, p + 3, end as int, 0) == f.args.end,
        p_fn_args(ts, (p + 3) as usize, f.args.end, seq![]) is Ok,
        p_fn_args(ts, (p + 3) as usize, f.args.end, seq![])->Ok_0.0 == seq![] + f.inputs,
        f.output == (Span { start: (f.args.end + 1) as usize, end: q }),
        f.args.end + 1 <= q <= end,
        scan(ts, f.args.end + 1, end as int, 0, 0, Stop::Semi) == q,
        valid(Syntax::ReturnType, ts, f.output),
        s_virt_fn(seq![], ts, f) == seq![id("fn"@), ts[p + 1], TokV::Open(Delim::Paren)]
            + s_fn_args(seq![], ts, f.inputs) + seq![TokV::Close(Delim::Paren)]
            + ts.subrange(f.args.end + 1, q as int),
        f.args.end - (p + 3) <= s_fn_args(seq![], ts, f.inputs).len() <= f.args.end - (p + 3) + 1,
{
    let (name, n) = p_ident(ts, (p + 1) as usize, end)->Ok_0;
    let c = close_of(ts, n + 1, end as int, 0);
    lemma_close_of_bounds(ts, n + 1, end as int, 0);
    let qo = scan(ts, c + 1, end as int, 0, 0, Stop::Semi);
    lemma_scan_bounds(ts, c + 1, end as int, 0, 0, Stop::Semi);
    let head = seq![id("fn"@), ts[p + 1], TokV::Open(Delim::Paren)];
    assert(span_of(ts, name) =~= seq![ts[p + 1]]);
    assert(s_span(seq![id("fn"@)], ts, name).push(TokV::Open(Delim::Paren)) =~= head);
    lemma_fn_args_app(head, ts, f.inputs);
    assert(span_of(ts, f.output) =~= ts.subrange(c + 1, qo));
    assert(seq![] + f.inputs =~= f.inputs);
    lemma_fn_args_len(ts, (p + 3) as usize, c as usize, seq![], f.inputs);
    assert(s_virt_fn(seq![], ts, f) =~= head + s_fn_args(seq![], ts, f.inputs) + seq![TokV::Close(Delim::Paren)]
        + ts.subrange(c + 1, qo));
}

/// The return type, printed last, reads back to the end of the printed
/// tokens.
#[verifier::rlimit(50)]
#[verifier::spinoff_prover]
pub proof fn lemma_output_transfer(ts: Seq<TokV>, out: Seq<TokV>, c: int, end: int, q: int, cc: int)
    requires
        0 <= c < end <= ts.len(),
        c < q <= end,
        0 <= cc,
        scan(ts, c + 1, end, 0, 0, Stop::Semi) == q,
        ts[c] is Close,
        cc + 1 + (q - (c + 1)) == out.len(),
        out[cc] is Close,
        out.subrange(cc + 1, out.len() as int) == ts.subrange(c + 1, q),
    ensures
        scan(out, cc + 1, out.len() as int, 0, 0, Stop::Semi) == out.len(),
{
    let dd = c - cc;
    assert forall|k: int| c + 1 <= k < q implies k - dd < out.len() && out[k - dd] == #[trigger] ts[k]
        && stops_at(out, k - dd, Stop::Semi) == stops_at(ts, k, Stop::Semi)
        && joined_to_previous(out, k - dd) == joined_to_previous(ts, k) by {
        assert(out[k - dd] == out.subrange(cc + 1, out.len() as int)[k - c - 1]);
        if k > c + 1 {
            assert(out[k - dd - 1] == out.subrange(cc + 1, out.len() as int)[k - c - 2]);
        }
    }
    lemma_scan_transfer(ts, out, dd, c + 1, end, out.len() as int, 0, 0, Stop::Semi);
}

/// Every parameter that the parser reads has a type, when it has one,
/// that closes what it opens.
pub proof fn lemma_fn_args_balanced(ts: Seq<TokV>, p: usize, end: usize, acc: Seq<VirtFnArg>)
    requires
        forall|i: int| 0 <= i < acc.len() ==> arg_balanced(ts, #[trigger] acc[i]),
    ensures
        p_fn_args(ts, p, end, acc) is Ok ==> forall|i: int| 0 <= i < p_fn_args(ts, p, end, acc)->Ok_0.0.len()
            ==> arg_balanced(ts, #[trigger] p_fn_args(ts, p, end, acc)->Ok_0.0[i]),
    decreases end - p,
{
    if p < end {
        if let Ok((a, q)) = p_fn_arg(ts, p, end) {
            let acc2 = acc.push(a);
            assert(arg_balanced(ts, a));
            assert forall|i: int| 0 <= i < acc2.len() implies arg_balanced(ts, #[trigger] acc2[i]) by {
                if i < acc.len() {
                    assert(acc2[i] == acc[i]);
                }
            }
            if q < end && punct_is(ts, q as int, end as int, ',') {
                lemma_fn_arg(ts, p, end);
                lemma_fn_args_balanced(ts, (q + 1) as usize, end, acc2);
            }
        }
    }
}

/// The parameters of a virtual function that the parser reads close what
/// they open.
pub proof fn lemma_virt_fn_args_balanced(ts: Seq<TokV>, p: usize, end: usize, f: VirtFnV, q: usize)
    requires
        p <= end <= ts.len(),
        p_virt_fn(ts, p, end) == Ok::<(VirtFnV, usize), ParseError>((f, q)),
    ensures
        forall|i: int| 0 <= i < f.inputs.len() ==> arg_balanced(ts, #[trigger] f.inputs[i]),
{
    lemma_virt_fn_layout(ts, p, end, f, q);
    lemma_fn_args_balanced(ts, (p + 3) as usize, f.args.end, seq![]);
    assert(seq![] + f.inputs =~= f.inputs);
}

/// The function read back from the tokens that `f`, read at `p`, prints.
pub open spec fn reread_fn(ts: Seq<TokV>, p: usize, f: VirtFnV) -> VirtFnV {
    let out = s_virt_fn(seq![], ts, f);
    let cc = 3 + s_fn_args(seq![], ts, f.inputs).len();
    VirtFnV {
        name: Span { start: 1, end: 2 },
        args: Span { start: 3, end: cc as usize },
        inputs: shift_args(f.inputs, p),
        output: Span { start: (cc + 1) as usize, end: out.len() as usize },
    }
}

/// The printed parameters and the parenthesis that closes them read back.
#[verifier::rlimit(60)]
#[verifier::spinoff_prover]
proof fn lemma_reread_args(ts: Seq<TokV>, p: usize, end: usize, c: usize, inputs: Seq<VirtFnArg>, out: Seq<TokV>, tail: Seq<TokV>)
    requires
        p + 3 <= c < end <= ts.len(),
        end < usize::MAX,
        ts[p + 2] == TokV::Open(Delim::Paren),
        close_of(ts, p + 3, end as int, 0) == c,
        p_fn_args(ts, (p + 3) as usize, c, seq![]) is Ok,
        p_fn_args(ts, (p + 3) as usize, c, seq![])->Ok_0.0 == seq![] + inputs,
        forall|i: int| 0 <= i < inputs.len() ==> arg_balanced(ts, #[trigger] inputs[i]),
        out == seq![id("fn"@), ts[p + 1], TokV::Open(Delim::Paren)] + s_fn_args(seq![], ts, inputs)
            + seq![TokV::Close(Delim::Paren)] + tail,
        c - (p + 3) <= s_fn_args(seq![], ts, inputs).len() <= c - (p + 3) + 1,
        tail.len() <= end - (c + 1),
    ensures
        ({
            let cc = 3 + s_fn_args(seq![], ts, inputs).len();
            &&& out.len() <= usize::MAX
            &&& p_fn_args(out, 3, cc as usize, seq![])
                == Ok::<(Seq<VirtFnArg>, usize), ParseError>((shift_args(inputs, p), cc as usize))
            &&& close_of(out, 3, out.len() as int, 0) == cc
            &&& forall|i: int| 0 <= i < inputs.len()
                ==> s_fn_arg(seq![], out, shift_arg(#[trigger] inputs[i], p)) == s_fn_arg(seq![], ts, inputs[i])
        }),
{
    let pp = s_fn_args(seq![], ts, inputs);
    let len = out.len();
    let cc: int = 3 + pp.len() as int;
    assert(out.subrange(3, cc as int) =~= pp);
    assert(out[cc as int] == TokV::Close(Delim::Paren));
    assert(out[2] == TokV::Open(Delim::Paren));
    lemma_fn_args_transfer(ts, out, p, (p + 3) as usize, c, cc as usize, seq![], seq![], inputs);
    assert(seq![] + shift_args(inputs, p) =~= shift_args(inputs, p));
    let x = cc - (c - p);
    lemma_close_transfer(ts, out, p as int, p + 3, end as int, len as int, 0, x);
}

/// The name and the return type of a printed function read back.
#[verifier::rlimit(60)]
#[verifier::spinoff_prover]
proof fn lemma_reread_ends(ts: Seq<TokV>, p: usize, end: usize, f: VirtFnV, q: usize, out: Seq<TokV>, cc: int)
    requires
        p <= end <= ts.len(),
        f.name == (Span { start: (p + 1) as usize, end: (p + 2) as usize }),
        ident_ok(ts, p + 1, end as int),
        p + 3 <= f.args.end < end,
        ts[f.args.end as int] is Close,
        f.output == (Span { start: (f.args.end + 1) as usize, end: q }),
        f.args.end + 1 <= q <= end,
        scan(ts, f.args.end + 1, end as int, 0, 0, Stop::Semi) == q,
        valid(Syntax::ReturnType, ts, f.output),
        3 <= cc,
        out.len() == cc + 1 + (q - (f.args.end + 1)),
        out.len() <= usize::MAX,
        out[1] == ts[p + 1],
        out[cc] == TokV::Close(Delim::Paren),
        out.subrange(cc + 1, out.len() as int) == ts.subrange(f.args.end + 1, q as int),
    ensures
        ident_ok(out, 1, out.len() as int),
        scan(out, cc + 1, out.len() as int, 0, 0, Stop::Semi) == out.len(),
        valid(Syntax::ReturnType, out, Span { start: (cc + 1) as usize, end: out.len() as usize }),
        span_of(out, Span { start: 1, end: 2 }) == span_of(ts, f.name),
        span_of(out, Span { start: (cc + 1) as usize, end: out.len() as usize }) == span_of(ts, f.output),
{
    let len = out.len();
    let c = f.args.end;
    let output2 = Span { start: (cc + 1) as usize, end: len as usize };
    assert(out.subrange(1, 2) =~= ts.subrange(p + 1, p + 2));
    lemma_valid_transfer(Syntax::Ident, ts, f.name, out, Span { start: 1, end: 2 });
    lemma_output_transfer(ts, out, c as int, end as int, q as int, cc);
    assert(output2.of(out) =~= f.output.of(ts));
    lemma_valid_transfer(Syntax::ReturnType, ts, f.output, out, output2);
    assert(span_of(out, Span { start: 1, end: 2 }) =~= span_of(ts, f.name));
    assert(span_of(out, output2) =~= span_of(ts, f.output));
}

/// Reading back the tokens that a virtual function prints.
#[verifier::rlimit(60)]
#[verifier::spinoff_prover]
pub proof fn lemma_virt_fn_reread(ts: Seq<TokV>, p: usize, end: usize, f: VirtFnV, q: usize)
    requires
        p <= end <= ts.len(),
        end < usize::MAX,
        p_virt_fn(ts, p, end) == Ok::<(VirtFnV, usize), ParseError>((f, q)),
    ensures
        ({
            let out = s_virt_fn(seq![], ts, f);
            let g = reread_fn(ts, p, f);
            &&& out.len() <= usize::MAX
            &&& p_virt_fn(out, 0, out.len() as usize) == Ok::<(VirtFnV, usize), ParseError>((g, out.len() as usize))
            &&& same_fn(out, g, ts, f)
        }),
{
    lemma_virt_fn_layout(ts, p, end, f, q);
    lemma_virt_fn_args_balanced(ts, p, end, f, q);
    let c = f.args.end;
    let out = s_virt_fn(seq![], ts, f);
    lemma_reread_args(ts, p, end, c, f.inputs, out, ts.subrange(c + 1, q as int));
    let len = out.len();
    let cc: int = 3 + s_fn_args(seq![], ts, f.inputs).len() as int;
    let g = reread_fn(ts, p, f);
    assert(out.subrange(cc + 1, len as int) =~= ts.subrange(c + 1, q as int));
    lemma_reread_ends(ts, p, end, f, q, out, cc);
    assert(p_virt_fn(out, 0, len as usize) == Ok::<(VirtFnV, usize), ParseError>((g, len as usize)));
    assert forall|i: int| 0 <= i < f.inputs.len()
        implies s_fn_arg(seq![], out, #[trigger] g.inputs[i]) == s_fn_arg(seq![], ts, f.inputs[i]) by {
        assert(g.inputs[i] == shift_arg(f.inputs[i], p));
    }
}

} // verus!
