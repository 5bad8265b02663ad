//! Appending tokens to an output stream. Each function appends to `out`
//! and states the new stream as the old one followed by what it appended.

use vstd::prelude::*;
use crate::tokens::{Delim, Spacing, Tok, TokV, tv, copy_tok, copy_chars};
use crate::scan::{Span, chars_of};

verus! {

pub open spec fn id(s: Seq<char>) -> TokV {
    TokV::Ident(s)
}

/// A punctuation character followed by a space.
pub open spec fn pn(c: char) -> TokV {
    TokV::Punct(c, Spacing::Alone)
}

/// A punctuation character joined to the next one.
pub open spec fn pj(c: char) -> TokV {
    TokV::Punct(c, Spacing::Joint)
}

/// The path separator `::` after `acc`.
pub open spec fn sep(acc: Seq<TokV>) -> Seq<TokV> {
    acc.push(pj(':')).push(pn(':'))
}

/// The span lies inside the stream.
pub open spec fn span_ok(ts: Seq<TokV>, s: Span) -> bool {
    s.start <= s.end <= ts.len()
}

/// The tokens of a span of the stream, or none when it is out of range.
pub open spec fn span_of(ts: Seq<TokV>, s: Span) -> Seq<TokV> {
    if span_ok(ts, s) {
        ts.subrange(s.start as int, s.end as int)
    } else {
        seq![]
    }
}

pub proof fn lemma_tv_push(v: Seq<Tok>, t: Tok)
    ensures
        tv(v.push(t)) == tv(v).push(t@),
{
    assert(tv(v.push(t)) =~= tv(v).push(t@));
}

/// Appends a token.
pub fn push_tok(out: &mut Vec<Tok>, t: Tok)
    ensures
        tv(final(out)@) == tv(old(out)@).push(t@),
{
    proof { lemma_tv_push(out@, t); }
    out.push(t);
}

/// Appends the identifier `s`.
pub fn push_ident(out: &mut Vec<Tok>, s: &str)
    ensures
        tv(final(out)@) == tv(old(out)@).push(id(s@)),
{
    push_tok(out, Tok::Ident(chars_of(s)));
}

/// Appends the identifier spelled by `s`.
pub fn push_ident_chars(out: &mut Vec<Tok>, s: &Vec<char>)
    ensures
        tv(final(out)@) == tv(old(out)@).push(id(s@)),
{
    push_tok(out, Tok::Ident(copy_chars(s)));
}

/// Appends `c` followed by a space.
pub fn push_punct(out: &mut Vec<Tok>, c: char)
    ensures
        tv(final(out)@) == tv(old(out)@).push(pn(c)),
{
    push_tok(out, Tok::Punct(c, Spacing::Alone));
}

/// Appends `c` joined to the next character.
pub fn push_joint(out: &mut Vec<Tok>, c: char)
    ensures
        tv(final(out)@) == tv(old(out)@).push(pj(c)),
{
    push_tok(out, Tok::Punct(c, Spacing::Joint));
}

/// Appends `::`.
pub fn push_sep(out: &mut Vec<Tok>)
    ensures
        tv(final(out)@) == sep(tv(old(out)@)),
{
    push_joint(out, ':');
    push_punct(out, ':');
}

/// Opens a group.
pub fn push_open(out: &mut Vec<Tok>, d: Delim)
    ensures
        tv(final(out)@) == tv(old(out)@).push(TokV::Open(d)),
{
    push_tok(out, Tok::Open(d));
}

/// Closes a group.
pub fn push_close(out: &mut Vec<Tok>, d: Delim)
    ensures
        tv(final(out)@) == tv(old(out)@).push(TokV::Close(d)),
{
    push_tok(out, Tok::Close(d));
}

/// Appends all tokens of `other`.
pub fn push_toks(out: &mut Vec<Tok>, other: &Vec<Tok>)
    ensures
        tv(final(out)@) == tv(old(out)@) + tv(other@),
{
    let mut i: usize = 0;
    assert(tv(other@).subrange(0, 0) =~= Seq::<TokV>::empty());
    assert(tv(out@) =~= tv(old(out)@) + tv(other@).subrange(0, 0));
    while i < other.len()
        invariant
            i <= other.len(),
            tv(out@) == tv(old(out)@) + tv(other@).subrange(0, i as int),
        decreases other.len() - i,
    {
        push_tok(out, copy_tok(&other[i]));
        assert(tv(other@).subrange(0, i + 1) =~= tv(other@).subrange(0, i as int).push(other@[i as int]@));
        i = i + 1;
    }
    assert(tv(other@).subrange(0, other@.len() as int) =~= tv(other@));
}

/// Appends the tokens of `span` of `toks` (none when it is out of range).
pub fn push_span(out: &mut Vec<Tok>, toks: &Vec<Tok>, span: Span)
    ensures
        tv(final(out)@) == tv(old(out)@) + span_of(tv(toks@), span),
{
    let ghost ts = tv(toks@);
    if !(span.start <= span.end && span.end <= toks.len()) {
        assert(tv(out@) =~= tv(old(out)@) + span_of(ts, span));
        return;
    }
    let mut i = span.start;
    assert(ts.subrange(span.start as int, span.start as int) =~= Seq::<TokV>::empty());
    assert(tv(out@) =~= tv(old(out)@) + ts.subrange(span.start as int, span.start as int));
    while i < span.end
        invariant
            span.start <= i <= span.end <= toks@.len(),
            ts == tv(toks@),
            tv(out@) == tv(old(out)@) + ts.subrange(span.start as int, i as int),
        decreases span.end - i,
    {
        push_tok(out, copy_tok(&toks[i]));
        assert(ts.subrange(span.start as int, i + 1) =~= ts.subrange(span.start as int, i as int).push(toks@[i as int]@));
        i = i + 1;
    }
}

/// `acc` followed by the tokens of a span.
pub open spec fn s_span(acc: Seq<TokV>, ts: Seq<TokV>, s: Span) -> Seq<TokV> {
    acc + span_of(ts, s)
}

} // verus!
