//! Naming the field that holds an inherited class: `inherited`, then for
//! each segment of the class's path an underscore and the segment in snake
//! case, so that `a::FooBar<T>` gives `inherited_a_foo_bar`.

use vstd::prelude::*;
use crate::tokens::{Spacing, Tok, TokV, tv};
use crate::scan::{Span, is_punct, joined_to_previous};
use crate::emit::span_ok;

verus! {

/// What `char::is_uppercase` returns for `c`.
pub uninterp spec fn char_is_upper(c: char) -> bool;

/// The characters that `char::to_lowercase` yields for `c`.
pub uninterp spec fn char_lower(c: char) -> Seq<char>;

/// Calls `char::is_uppercase`, which tells whether `c` has the Unicode
/// `Uppercase` property; the result is named `char_is_upper`, and which
/// characters have the property is left unsaid.
#[verifier::external_body]
fn is_uppercase(c: char) -> (r: bool)
    ensures
        r == char_is_upper(c),
{
    c.is_uppercase()
}

/// Calls `char::to_lowercase` and collects what it yields: the Unicode
/// lowercase mapping of `c`, named `char_lower`; the mapping itself is left
/// unsaid.
#[verifier::external_body]
fn to_lowercase(c: char) -> (r: Vec<char>)
    ensures
        r@ == char_lower(c),
{
    c.to_lowercase().collect()
}

/// A character written in lowercase when it is uppercase.
pub open spec fn lower_if_upper(c: char) -> Seq<char> {
    if char_is_upper(c) {
        char_lower(c)
    } else {
        seq![c]
    }
}

/// Characters after the first of a segment: each uppercase one becomes an
/// underscore and its lowercase, the others stay.
pub open spec fn snake_tail(s: Seq<char>) -> Seq<char>
    decreases s.len(),
{
    if s.len() == 0 {
        seq![]
    } else {
        snake_tail(s.drop_last()) + if char_is_upper(s.last()) {
            seq!['_'] + char_lower(s.last())
        } else {
            seq![s.last()]
        }
    }
}

/// A path segment in snake case: the first character lowercased, no
/// underscore before it.
pub open spec fn snake_segment(s: Seq<char>) -> Seq<char> {
    if s.len() == 0 {
        seq![]
    } else {
        lower_if_upper(s[0]) + snake_tail(s.drop_first())
    }
}

/// What is written for the segments of a path: for each, `_` and the
/// segment in snake case.
pub open spec fn ident_of_segments(segs: Seq<Seq<char>>) -> Seq<char>
    decreases segs.len(),
{
    if segs.len() == 0 {
        seq![]
    } else {
        ident_of_segments(segs.drop_last()) + seq!['_'] + snake_segment(segs.last())
    }
}

/// Tokens `j` and `j + 1` form the path separator `::`.
pub open spec fn sep_at(ts: Seq<TokV>, j: int, end: int) -> bool {
    0 <= j && j + 1 < end && j + 1 < ts.len() && ts[j] == TokV::Punct(':', Spacing::Joint)
        && is_punct(ts[j + 1], ':')
}

/// Tokens `j` and `j + 1` form the arrow `->`.
pub open spec fn arrow_at(ts: Seq<TokV>, j: int, end: int) -> bool {
    0 <= j && j + 1 < end && j + 1 < ts.len() && ts[j] == TokV::Punct('-', Spacing::Joint)
        && is_punct(ts[j + 1], '>')
}

/// The identifiers of the segments of a path, from position `j`: those
/// outside groups and angle brackets that begin the path or follow `::`.
/// A top-level `->` ends the path proper (what follows is a return type).
pub open spec fn segments_from(ts: Seq<TokV>, j: int, end: int, g: nat, a: nat, fresh: bool, acc: Seq<Seq<char>>)
    -> Seq<Seq<char>>
    decreases end - j,
{
    if j >= end || j < 0 || j >= ts.len() {
        acc
    } else if g == 0 && a == 0 && arrow_at(ts, j, end) {
        acc
    } else if g == 0 && a == 0 && sep_at(ts, j, end) {
        segments_from(ts, j + 2, end, g, a, true, acc)
    } else {
        match ts[j] {
            TokV::Ident(s) => if g == 0 && a == 0 && fresh {
                segments_from(ts, j + 1, end, g, a, false, acc.push(s))
            } else {
                segments_from(ts, j + 1, end, g, a, false, acc)
            },
            TokV::Open(_) => segments_from(ts, j + 1, end, g + 1, a, false, acc),
            TokV::Close(_) => segments_from(ts, j + 1, end, if g > 0 { (g - 1) as nat } else { 0 }, a, false, acc),
            TokV::Punct(c, _) => if g == 0 && c == '<' {
                segments_from(ts, j + 1, end, g, a + 1, false, acc)
            } else if g == 0 && c == '>' && a > 0 && !joined_to_previous(ts, j) {
                segments_from(ts, j + 1, end, g, (a - 1) as nat, false, acc)
            } else {
                segments_from(ts, j + 1, end, g, a, false, acc)
            },
            _ => segments_from(ts, j + 1, end, g, a, false, acc),
        }
    }
}

/// The identifiers of the segments of the path in `span`.
pub open spec fn path_segments(ts: Seq<TokV>, span: Span) -> Seq<Seq<char>> {
    if span_ok(ts, span) {
        segments_from(ts, span.start as int, span.end as int, 0, 0, true, seq![])
    } else {
        seq![]
    }
}

/// The name of the field that holds the class at `path`.
pub open spec fn field_name(ts: Seq<TokV>, path: Span) -> Seq<char> {
    "inherited"@ + ident_of_segments(path_segments(ts, path))
}

/// The identifiers of the segments of the path in `span`.
pub fn segments(toks: &Vec<Tok>, span: Span) -> (r: Vec<Vec<char>>)
    ensures
        r@.map_values(|s: Vec<char>| s@) == path_segments(tv(toks@), span),
{
    let ghost ts = tv(toks@);
    if !(span.start <= span.end && span.end <= toks.len()) {
        let r: Vec<Vec<char>> = Vec::new();
        assert(r@.map_values(|s: Vec<char>| s@) =~= Seq::<Seq<char>>::empty());
        return r;
    }
    let end = span.end;
    let mut r: Vec<Vec<char>> = Vec::new();
    let mut j = span.start;
    let mut g: usize = 0;
    let mut a: usize = 0;
    let mut fresh = true;
    assert(r@.map_values(|s: Vec<char>| s@) =~= Seq::<Seq<char>>::empty());
    while j < end
        invariant
            span.start <= j <= end <= toks@.len(),
            ts == tv(toks@),
            g <= j,
            a <= j,
            segments_from(ts, j as int, end as int, g as nat, a as nat, fresh, r@.map_values(|s: Vec<char>| s@))
                == path_segments(ts, span),
        decreases end - j,
    {
        assert(toks@[j as int]@ == ts[j as int]);
        if g == 0 && a == 0 && end - j > 1 && joint_pair(toks, j, '-', '>') {
            return r;
        }
        if g == 0 && a == 0 && end - j > 1 && joint_pair(toks, j, ':', ':') {
            j = j + 2;
            fresh = true;
        } else {
            let ghost before = r@;
            match &toks[j] {
                Tok::Ident(s) => {
                    if g == 0 && a == 0 && fresh {
                        r.push(crate::tokens::copy_chars(s));
                        assert(r@.map_values(|s: Vec<char>| s@)
                            =~= before.map_values(|s: Vec<char>| s@).push(s@));
                    }
                },
                Tok::Open(_) => {
                    g = g + 1;
                },
                Tok::Close(_) => {
                    if g > 0 {
                        g = g - 1;
                    }
                },
                Tok::Punct(c, _) => {
                    if g == 0 && *c == '<' {
                        a = a + 1;
                    } else if g == 0 && *c == '>' && a > 0 && !prev_joins(toks, j) {
                        a = a - 1;
                    }
                },
                _ => {},
            }
            fresh = false;
            j = j + 1;
        }
    }
    r
}

/// Tokens `j` and `j + 1` are `first` (joint) and `second`.
pub fn joint_pair(toks: &Vec<Tok>, j: usize, first: char, second: char) -> (r: bool)
    requires
        j + 1 < toks.len(),
    ensures
        r == (tv(toks@)[j as int] == TokV::Punct(first, Spacing::Joint) && is_punct(tv(toks@)[j + 1], second)),
{
    let a = match &toks[j] {
        Tok::Punct(c, Spacing::Joint) => *c == first,
        _ => false,
    };
    let b = match &toks[j + 1] {
        Tok::Punct(c, _) => *c == second,
        _ => false,
    };
    a && b
}

/// The token before `j` joins with it into `->` or `=>`.
fn prev_joins(toks: &Vec<Tok>, j: usize) -> (r: bool)
    requires
        j < toks@.len(),
    ensures
        r == joined_to_previous(tv(toks@), j as int),
{
    if j == 0 {
        return false;
    }
    match &toks[j - 1] {
        Tok::Punct(c, Spacing::Joint) => *c == '-' || *c == '=',
        _ => false,
    }
}

/// Appends `c`, lowercased when it is uppercase, with an underscore before
/// it when `underscore` is set and it is uppercase.
fn append_char(ident_str: &mut Vec<char>, c: char, underscore: bool)
    ensures
        final(ident_str)@ == old(ident_str)@ + if char_is_upper(c) {
            if underscore { seq!['_'] + char_lower(c) } else { char_lower(c) }
        } else {
            seq![c]
        },
{
    if is_uppercase(c) {
        if underscore {
            ident_str.push('_');
        }
        let lower = to_lowercase(c);
        crate::syntax::push_chars(ident_str, &lower);
        if underscore {
            assert(final(ident_str)@ =~= old(ident_str)@ + (seq!['_'] + char_lower(c)));
        }
    } else {
        ident_str.push(c);
    }
}

/// Appends a segment in snake case.
fn write_segment(ident_str: &mut Vec<char>, s: &Vec<char>)
    ensures
        final(ident_str)@ == old(ident_str)@ + snake_segment(s@),
{
    if s.len() == 0 {
        assert(final(ident_str)@ =~= old(ident_str)@ + snake_segment(s@));
        return;
    }
    append_char(ident_str, s[0], false);
    let ghost first = ident_str@;
    let ghost tail = s@.drop_first();
    let mut i: usize = 1;
    assert(tail.subrange(0, 0) =~= Seq::<char>::empty());
    assert(first =~= first + snake_tail(tail.subrange(0, 0)));
    while i < s.len()
        invariant
            1 <= i <= s.len(),
            tail == s@.drop_first(),
            ident_str@ == first + snake_tail(tail.subrange(0, i - 1)),
        decreases s.len() - i,
    {
        let ghost before = ident_str@;
        append_char(ident_str, s[i], true);
        assert(tail.subrange(0, i as int).drop_last() =~= tail.subrange(0, i - 1));
        assert(tail.subrange(0, i as int).last() == s@[i as int]);
        assert(ident_str@ =~= first + snake_tail(tail.subrange(0, i as int)));
        i = i + 1;
    }
    assert(tail.subrange(0, s.len() - 1) =~= tail);
    assert(final(ident_str)@ =~= old(ident_str)@ + snake_segment(s@));
}

/// Appends, for each segment, `_` and the segment in snake case.
pub fn write_ident(segs: &Vec<Vec<char>>, ident_str: &mut Vec<char>)
    ensures
        final(ident_str)@ == old(ident_str)@ + ident_of_segments(segs@.map_values(|s: Vec<char>| s@)),
{
    let ghost vs = segs@.map_values(|s: Vec<char>| s@);
    let mut i: usize = 0;
    assert(vs.subrange(0, 0) =~= Seq::<Seq<char>>::empty());
    assert(ident_str@ =~= old(ident_str)@ + ident_of_segments(vs.subrange(0, 0)));
    while i < segs.len()
        invariant
            i <= segs.len(),
            vs == segs@.map_values(|s: Vec<char>| s@),
            ident_str@ == old(ident_str)@ + ident_of_segments(vs.subrange(0, i as int)),
        decreases segs.len() - i,
    {
        ident_str.push('_');
        write_segment(ident_str, &segs[i]);
        assert(vs.subrange(0, i + 1).drop_last() =~= vs.subrange(0, i as int));
        assert(vs.subrange(0, i + 1).last() == segs@[i as int]@);
        assert(ident_str@ =~= old(ident_str)@ + ident_of_segments(vs.subrange(0, i + 1)));
        i = i + 1;
    }
    assert(vs.subrange(0, segs@.len() as int) =~= vs);
}

/// The name of the field that holds the class at `path`.
pub fn field_name_of(toks: &Vec<Tok>, path: Span) -> (r: Vec<char>)
    ensures
        r@ == field_name(tv(toks@), path),
{
    let mut s = crate::scan::chars_of("inherited");
    let segs = segments(toks, path);
    write_ident(&segs, &mut s);
    s
}

} // verus!
