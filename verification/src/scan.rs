//! Walking a token stream: matching delimiters, finding where a piece of
//! syntax ends, and recognizing single tokens.

use vstd::prelude::*;
use crate::tokens::{Delim, Spacing, Tok, TokV, tv};

verus! {

/// A range `[start, end)` of positions in a token stream.
#[derive(Clone, Copy, PartialEq, Eq, Debug, Structural)]
pub struct Span {
    pub start: usize,
    pub end: usize,
}

impl Span {
    /// The tokens that the span covers.
    pub open spec fn of(self, ts: Seq<TokV>) -> Seq<TokV> {
        ts.subrange(self.start as int, self.end as int)
    }

    /// The span lies in order inside `[lo, hi)`.
    pub open spec fn within(self, lo: int, hi: int) -> bool {
        lo <= self.start <= self.end <= hi
    }

    pub open spec fn is_empty(self) -> bool {
        self.start == self.end
    }
}

/// The token is the punctuation character `c`, whatever its spacing.
pub open spec fn is_punct(t: TokV, c: char) -> bool {
    match t {
        TokV::Punct(d, _) => d == c,
        _ => false,
    }
}

/// The token is the identifier `s`.
pub open spec fn is_ident(t: TokV, s: Seq<char>) -> bool {
    match t {
        TokV::Ident(u) => u == s,
        _ => false,
    }
}

/// Token `p` of `ts`, before `end`, is the punctuation character `c`.
pub open spec fn punct_is(ts: Seq<TokV>, p: int, end: int, c: char) -> bool {
    0 <= p < end && p < ts.len() && is_punct(ts[p], c)
}

/// Token `p` of `ts`, before `end`, is the identifier `s`.
pub open spec fn ident_is(ts: Seq<TokV>, p: int, end: int, s: Seq<char>) -> bool {
    0 <= p < end && p < ts.len() && is_ident(ts[p], s)
}

/// Token `p` of `ts`, before `end`, opens a group delimited by `d`.
pub open spec fn open_is(ts: Seq<TokV>, p: int, end: int, d: Delim) -> bool {
    0 <= p < end && p < ts.len() && ts[p] == TokV::Open(d)
}

/// Token `p` is the second character of a two-character operator that ends
/// in `>`, such as `->`, or the `>` of `=>`.
pub open spec fn joined_to_previous(ts: Seq<TokV>, p: int) -> bool {
    1 <= p < ts.len() + 1 && (ts[p - 1] == TokV::Punct('-', Spacing::Joint)
        || ts[p - 1] == TokV::Punct('=', Spacing::Joint))
}

/// Token `p` is a `:` that is not part of a `::` path separator.
pub open spec fn lone_colon(ts: Seq<TokV>, p: int) -> bool {
    &&& 0 <= p < ts.len()
    &&& is_punct(ts[p], ':')
    &&& !(ts[p] == TokV::Punct(':', Spacing::Joint) && p + 1 < ts.len()
        && is_punct(ts[p + 1], ':'))
    &&& !(p >= 1 && ts[p - 1] == TokV::Punct(':', Spacing::Joint))
}

/// Where a piece of syntax that is delimited by the class grammar ends.
#[derive(Clone, Copy, PartialEq, Eq, Debug, Structural)]
pub enum Stop {
    /// At `;`: a field type, a return type.
    Semi,
    /// At `,`: the type of a parameter.
    Comma,
    /// At `,` or a closing `>`: a generic parameter.
    ParamEnd,
    /// At a `:` that is not part of `::`: a parameter pattern.
    Colon,
    /// At the keyword `as`, or at the `;` that ends the item: the target of
    /// a `use` item.
    As,
    /// At `,`, a brace group or `where`: the path of an inherited class.
    PathEnd,
    /// At a brace group: a `where` clause.
    Brace,
}

/// Token `j` ends a piece of syntax of the given kind, when it stands
/// outside all groups and angle brackets.
pub open spec fn stops_at(ts: Seq<TokV>, j: int, stop: Stop) -> bool {
    match stop {
        Stop::Semi => is_punct(ts[j], ';'),
        Stop::Comma => is_punct(ts[j], ','),
        Stop::ParamEnd => (is_punct(ts[j], ','))
            || (is_punct(ts[j], '>') && !joined_to_previous(ts, j)),
        Stop::Colon => lone_colon(ts, j),
        Stop::As => is_ident(ts[j], "as"@) || is_punct(ts[j], ';'),
        Stop::PathEnd => (is_punct(ts[j], ','))
            || ts[j] == TokV::Open(Delim::Brace)
            || (is_ident(ts[j], "where"@)),
        Stop::Brace => ts[j] == TokV::Open(Delim::Brace),
    }
}

/// The first position at or after `j` and before `end` where the syntax
/// ends, given `g` groups and `a` angle brackets open at `j`; `end` when
/// there is none. Angle brackets count only outside groups.
pub open spec fn scan(ts: Seq<TokV>, j: int, end: int, g: nat, a: nat, stop: Stop) -> int
    decreases end - j,
{
    if j >= end || j < 0 || j >= ts.len() {
        end
    } else if g == 0 && a == 0 && stops_at(ts, j, stop) {
        j
    } else {
        match ts[j] {
            TokV::Open(_) => scan(ts, j + 1, end, g + 1, a, stop),
            TokV::Close(_) => scan(ts, j + 1, end, if g > 0 { (g - 1) as nat } else { 0 }, a, stop),
            TokV::Punct(c, _) => if g == 0 && c == '<' {
                scan(ts, j + 1, end, g, a + 1, stop)
            } else if g == 0 && c == '>' && !joined_to_previous(ts, j) && a > 0 {
                scan(ts, j + 1, end, g, (a - 1) as nat, stop)
            } else {
                scan(ts, j + 1, end, g, a, stop)
            },
            _ => scan(ts, j + 1, end, g, a, stop),
        }
    }
}

/// The groups and angle brackets that are open after walking `[j, end)`
/// from `g` and `a`, counted as `scan` counts them.
pub open spec fn walk(ts: Seq<TokV>, j: int, end: int, g: nat, a: nat) -> (nat, nat)
    decreases end - j,
{
    if j >= end || j < 0 || j >= ts.len() {
        (g, a)
    } else {
        match ts[j] {
            TokV::Open(_) => walk(ts, j + 1, end, g + 1, a),
            TokV::Close(_) => walk(ts, j + 1, end, if g > 0 { (g - 1) as nat } else { 0 }, a),
            TokV::Punct(c, _) => if g == 0 && c == '<' {
                walk(ts, j + 1, end, g, a + 1)
            } else if g == 0 && c == '>' && !joined_to_previous(ts, j) && a > 0 {
                walk(ts, j + 1, end, g, (a - 1) as nat)
            } else {
                walk(ts, j + 1, end, g, a)
            },
            _ => walk(ts, j + 1, end, g, a),
        }
    }
}

/// The span closes every group and angle bracket that it opens.
pub open spec fn balanced(ts: Seq<TokV>, s: Span) -> bool {
    walk(ts, s.start as int, s.end as int, 0, 0) == (0nat, 0nat)
}


/// The state after one token of a walk.
pub open spec fn walk_step(ts: Seq<TokV>, j: int, g: nat, a: nat) -> (nat, nat) {
    match ts[j] {
        TokV::Open(_) => (g + 1, a),
        TokV::Close(_) => (if g > 0 { (g - 1) as nat } else { 0 }, a),
        TokV::Punct(c, _) => if g == 0 && c == '<' {
            (g, a + 1)
        } else if g == 0 && c == '>' && !joined_to_previous(ts, j) && a > 0 {
            (g, (a - 1) as nat)
        } else {
            (g, a)
        },
        _ => (g, a),
    }
}

/// Walking one token further extends the walk by one step.
pub proof fn lemma_walk_snoc(ts: Seq<TokV>, i: int, k: int, g: nat, a: nat)
    requires
        0 <= i <= k < ts.len(),
    ensures
        walk(ts, i, k + 1, g, a) == walk_step(ts, k, walk(ts, i, k, g, a).0, walk(ts, i, k, g, a).1),
    decreases k - i,
{
    if i < k {
        let (g2, a2) = walk_step(ts, i, g, a);
        assert(walk(ts, i, k + 1, g, a) == walk(ts, i + 1, k + 1, g2, a2));
        assert(walk(ts, i, k, g, a) == walk(ts, i + 1, k, g2, a2));
        lemma_walk_snoc(ts, i + 1, k, g2, a2);
    } else {
        let (g2, a2) = walk_step(ts, i, g, a);
        assert(walk(ts, i, k + 1, g, a) == walk(ts, i + 1, k + 1, g2, a2));
    }
}

/// Where `scan` stops, it has walked to no open group or angle bracket.
pub proof fn lemma_scan_stop_walk(ts: Seq<TokV>, j: int, end: int, g: nat, a: nat, stop: Stop)
    requires
        0 <= j,
        scan(ts, j, end, g, a, stop) < end,
    ensures
        walk(ts, j, scan(ts, j, end, g, a, stop), g, a) == (0nat, 0nat),
    decreases end - j,
{
    let r = scan(ts, j, end, g, a, stop);
    if j < end && j < ts.len() && !(g == 0 && a == 0 && stops_at(ts, j, stop)) {
        lemma_scan_bounds(ts, j, end, g, a, stop);
        let (g2, a2): (nat, nat) = match ts[j] {
            TokV::Open(_) => (g + 1, a),
            TokV::Close(_) => (if g > 0 { (g - 1) as nat } else { 0 }, a),
            TokV::Punct(c, _) => if g == 0 && c == '<' {
                (g, a + 1)
            } else if g == 0 && c == '>' && !joined_to_previous(ts, j) && a > 0 {
                (g, (a - 1) as nat)
            } else {
                (g, a)
            },
            _ => (g, a),
        };
        assert(r == scan(ts, j + 1, end, g2, a2, stop));
        lemma_scan_bounds(ts, j + 1, end, g2, a2, stop);
        lemma_scan_stop_walk(ts, j + 1, end, g2, a2, stop);
        assert(walk(ts, j, r, g, a) == walk(ts, j + 1, r, g2, a2));
    }
}

/// Whether the span closes every group and angle bracket that it opens.
pub fn is_balanced(toks: &Vec<Tok>, s: Span) -> (r: bool)
    requires
        s.end <= toks@.len(),
    ensures
        r == balanced(tv(toks@), s),
{
    let ghost ts = tv(toks@);
    let mut j = s.start;
    let mut g: usize = 0;
    let mut a: usize = 0;
    if j >= s.end {
        return true;
    }
    while j < s.end
        invariant
            s.start <= j <= s.end <= toks@.len(),
            ts == tv(toks@),
            g <= j - s.start,
            a <= j - s.start,
            walk(ts, j as int, s.end as int, g as nat, a as nat) == walk(ts, s.start as int, s.end as int, 0, 0),
        decreases s.end - j,
    {
        assert(toks@[j as int]@ == ts[j as int]);
        match &toks[j] {
            Tok::Open(_) => {
                g = g + 1;
            },
            Tok::Close(_) => {
                if g > 0 {
                    g = g - 1;
                }
            },
            Tok::Punct(c, _) => {
                if g == 0 && *c == '<' {
                    a = a + 1;
                } else if g == 0 && *c == '>' && !after_joint(toks, j) && a > 0 {
                    a = a - 1;
                }
            },
            _ => {},
        }
        j = j + 1;
    }
    g == 0 && a == 0
}

pub proof fn lemma_scan_bounds(ts: Seq<TokV>, j: int, end: int, g: nat, a: nat, stop: Stop)
    requires
        0 <= j,
    ensures
        j <= end ==> j <= scan(ts, j, end, g, a, stop) <= end,
        j > end ==> scan(ts, j, end, g, a, stop) == end,
        scan(ts, j, end, g, a, stop) < end ==> scan(ts, j, end, g, a, stop) < ts.len()
            && stops_at(ts, scan(ts, j, end, g, a, stop), stop),
    decreases end - j,
{
    if j < end && j < ts.len() && !(g == 0 && a == 0 && stops_at(ts, j, stop)) {
        match ts[j] {
            TokV::Open(_) => lemma_scan_bounds(ts, j + 1, end, g + 1, a, stop),
            TokV::Close(_) => lemma_scan_bounds(ts, j + 1, end, if g > 0 { (g - 1) as nat } else { 0 }, a, stop),
            TokV::Punct(c, _) => if g == 0 && c == '<' {
                lemma_scan_bounds(ts, j + 1, end, g, a + 1, stop)
            } else if g == 0 && c == '>' && !joined_to_previous(ts, j) && a > 0 {
                lemma_scan_bounds(ts, j + 1, end, g, (a - 1) as nat, stop)
            } else {
                lemma_scan_bounds(ts, j + 1, end, g, a, stop)
            },
            _ => lemma_scan_bounds(ts, j + 1, end, g, a, stop),
        }
    }
}

/// The position of the token that closes the group open at depth `d` at
/// position `j`, or `end` when the group is not closed before `end`.
pub open spec fn close_of(ts: Seq<TokV>, j: int, end: int, d: nat) -> int
    decreases end - j,
{
    if j >= end || j < 0 || j >= ts.len() {
        end
    } else {
        match ts[j] {
            TokV::Open(_) => close_of(ts, j + 1, end, d + 1),
            TokV::Close(_) => if d == 0 { j } else { close_of(ts, j + 1, end, (d - 1) as nat) },
            _ => close_of(ts, j + 1, end, d),
        }
    }
}

pub proof fn lemma_close_of_bounds(ts: Seq<TokV>, j: int, end: int, d: nat)
    requires
        0 <= j,
    ensures
        close_of(ts, j, end, d) == end || j <= close_of(ts, j, end, d) < end,
        close_of(ts, j, end, d) < end ==> close_of(ts, j, end, d) < ts.len()
            && ts[close_of(ts, j, end, d)] is Close,
    decreases end - j,
{
    if j < end && j < ts.len() {
        match ts[j] {
            TokV::Open(_) => lemma_close_of_bounds(ts, j + 1, end, d + 1),
            TokV::Close(_) => if d != 0 { lemma_close_of_bounds(ts, j + 1, end, (d - 1) as nat) },
            _ => lemma_close_of_bounds(ts, j + 1, end, d),
        }
    }
}

/// Finds where the syntax that starts at `start` ends: the first position
/// before `end`, outside groups and angle brackets, where `stop` holds.
pub fn find_stop(toks: &Vec<Tok>, start: usize, end: usize, stop: Stop) -> (r: usize)
    requires
        start <= end <= toks@.len(),
    ensures
        r == scan(tv(toks@), start as int, end as int, 0, 0, stop),
        start <= r <= end,
{
    let ghost ts = tv(toks@);
    proof { lemma_scan_bounds(ts, start as int, end as int, 0, 0, stop); }
    let mut j = start;
    let mut g: usize = 0;
    let mut a: usize = 0;
    while j < end
        invariant
            start <= j <= end <= toks@.len(),
            ts == tv(toks@),
            g <= j,
            a <= j,
            scan(ts, j as int, end as int, g as nat, a as nat, stop)
                == scan(ts, start as int, end as int, 0, 0, stop),
        decreases end - j,
    {
        let ghost before = ts[j as int];
        assert(toks@[j as int]@ == before);
        if g == 0 && a == 0 && stop_here(toks, j, stop) {
            return j;
        }
        match &toks[j] {
            Tok::Open(_) => {
                g = g + 1;
            },
            Tok::Close(_) => {
                if g > 0 {
                    g = g - 1;
                }
            },
            Tok::Punct(c, _) => {
                if g == 0 && *c == '<' {
                    a = a + 1;
                } else if g == 0 && *c == '>' && !after_joint(toks, j) && a > 0 {
                    a = a - 1;
                }
            },
            _ => {},
        }
        j = j + 1;
    }
    j
}

/// The token before `j` joins with it into `->` or `=>`.
fn after_joint(toks: &Vec<Tok>, j: usize) -> (r: bool)
    requires
        j < toks@.len(),
    ensures
        r == joined_to_previous(tv(toks@), j as int),
{
    if j == 0 {
        return false;
    }
    match &toks[j - 1] {
        Tok::Punct(c, Spacing::Joint) => *c == '-' || *c == '=',
        _ => false,
    }
}

/// Token `j` is a `:` that is not part of `::`.
fn lone_colon_at(toks: &Vec<Tok>, j: usize) -> (r: bool)
    requires
        j < toks@.len(),
    ensures
        r == lone_colon(tv(toks@), j as int),
{
    let ghost ts = tv(toks@);
    let is_colon = match &toks[j] {
        Tok::Punct(c, _) => *c == ':',
        _ => false,
    };
    if !is_colon {
        return false;
    }
    let first_of_pair = match &toks[j] {
        Tok::Punct(_, Spacing::Joint) => j < toks.len() - 1 && match &toks[j + 1] {
            Tok::Punct(c, _) => *c == ':',
            _ => false,
        },
        _ => false,
    };
    let second_of_pair = j >= 1 && match &toks[j - 1] {
        Tok::Punct(c, Spacing::Joint) => *c == ':',
        _ => false,
    };
    !first_of_pair && !second_of_pair
}

/// Token `j` ends a piece of syntax of the kind `stop`.
fn stop_here(toks: &Vec<Tok>, j: usize, stop: Stop) -> (r: bool)
    requires
        j < toks@.len(),
    ensures
        r == stops_at(tv(toks@), j as int, stop),
{
    match stop {
        Stop::Semi => punct_tok(&toks[j], ';'),
        Stop::Comma => punct_tok(&toks[j], ','),
        Stop::ParamEnd => punct_tok(&toks[j], ',') || (punct_tok(&toks[j], '>') && !after_joint(toks, j)),
        Stop::Colon => lone_colon_at(toks, j),
        Stop::As => ident_tok(&toks[j], "as") || punct_tok(&toks[j], ';'),
        Stop::PathEnd => punct_tok(&toks[j], ',') || open_tok(&toks[j], Delim::Brace)
            || ident_tok(&toks[j], "where"),
        Stop::Brace => open_tok(&toks[j], Delim::Brace),
    }
}

/// The token is the punctuation character `c`, whatever its spacing.
pub fn punct_tok(t: &Tok, c: char) -> (r: bool)
    ensures
        r == is_punct(t@, c),
{
    match t {
        Tok::Punct(d, _) => *d == c,
        _ => false,
    }
}

/// The token opens a group delimited by `d`.
pub fn open_tok(t: &Tok, d: Delim) -> (r: bool)
    ensures
        r == (t@ == TokV::Open(d)),
{
    match t {
        Tok::Open(e) => *e == d,
        _ => false,
    }
}

/// The token is the identifier `s`.
pub fn ident_tok(t: &Tok, s: &str) -> (r: bool)
    ensures
        r == is_ident(t@, s@),
{
    match t {
        Tok::Ident(u) => chars_eq_str(u, s),
        _ => false,
    }
}

/// The characters of `v` spell `s`.
pub fn chars_eq_str(v: &Vec<char>, s: &str) -> (r: bool)
    ensures
        r == (v@ == s@),
{
    let n = s.unicode_len();
    if v.len() != n {
        return false;
    }
    let mut i: usize = 0;
    while i < n
        invariant
            i <= n,
            n == v@.len(),
            n == s@.len(),
            forall|k: int| 0 <= k < i ==> v@[k] == s@[k],
        decreases n - i,
    {
        if v[i] != s.get_char(i) {
            return false;
        }
        i = i + 1;
    }
    assert(v@ =~= s@);
    true
}

/// The characters of `s`.
pub fn chars_of(s: &str) -> (r: Vec<char>)
    ensures
        r@ == s@,
{
    let n = s.unicode_len();
    let mut r: Vec<char> = Vec::new();
    let mut i: usize = 0;
    while i < n
        invariant
            i <= n,
            n == s@.len(),
            r@ == s@.subrange(0, i as int),
        decreases n - i,
    {
        r.push(s.get_char(i));
        i = i + 1;
    }
    assert(r@ =~= s@);
    r
}

/// Token `p` is the punctuation character `c`.
pub fn punct_at(toks: &Vec<Tok>, p: usize, end: usize, c: char) -> (r: bool)
    requires
        end <= toks@.len(),
    ensures
        r == punct_is(tv(toks@), p as int, end as int, c),
{
    p < end && punct_tok(&toks[p], c)
}

/// Token `p` is the identifier `s`.
pub fn ident_at(toks: &Vec<Tok>, p: usize, end: usize, s: &str) -> (r: bool)
    requires
        end <= toks@.len(),
    ensures
        r == ident_is(tv(toks@), p as int, end as int, s@),
{
    p < end && ident_tok(&toks[p], s)
}

/// Token `p` opens a group delimited by `d`.
pub fn open_at(toks: &Vec<Tok>, p: usize, end: usize, d: Delim) -> (r: bool)
    requires
        end <= toks@.len(),
    ensures
        r == open_is(tv(toks@), p as int, end as int, d),
{
    p < end && open_tok(&toks[p], d)
}

/// Finds the token that closes the group whose contents start at `start`.
pub fn find_close(toks: &Vec<Tok>, start: usize, end: usize) -> (r: usize)
    requires
        start <= end <= toks@.len(),
    ensures
        r == close_of(tv(toks@), start as int, end as int, 0),
        start <= r <= end,
{
    let ghost ts = tv(toks@);
    proof { lemma_close_of_bounds(ts, start as int, end as int, 0); }
    let mut j = start;
    let mut d: usize = 0;
    while j < end
        invariant
            start <= j <= end <= toks@.len(),
            ts == tv(toks@),
            d <= j,
            close_of(ts, j as int, end as int, d as nat) == close_of(ts, start as int, end as int, 0),
        decreases end - j,
    {
        assert(toks@[j as int]@ == ts[j as int]);
        match &toks[j] {
            Tok::Open(_) => {
                d = d + 1;
            },
            Tok::Close(_) => {
                if d == 0 {
                    return j;
                }
                d = d - 1;
            },
            _ => {},
        }
        j = j + 1;
    }
    j
}

} // verus!
