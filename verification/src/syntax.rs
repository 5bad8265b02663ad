//! The pieces of Rust syntax inside a class declaration that the grammar
//! delimits by itself and hands to `syn` to be checked: attributes,
//! visibilities, identifiers, generic parameters, paths, `where` clauses,
//! types, patterns, return types and generic arguments.
//!
//! A piece is handed over as source text: the tokens of its span, written
//! out so that lexing the text gives back the same tokens.

use vstd::prelude::*;
use crate::tokens::{Delim, Spacing, Tok, TokV, tv};
use crate::scan::Span;

verus! {

/// A kind of Rust syntax that `syn` parses.
#[derive(Clone, Copy, PartialEq, Eq, Debug, Structural)]
pub enum Syntax {
    /// Zero or more outer attributes `#[...]`.
    OuterAttrs,
    Visibility,
    Ident,
    GenericParam,
    Path,
    WhereClause,
    Type,
    /// A pattern without a leading `|`.
    Pat,
    ReturnType,
    GenericArgument,
}

/// The text of an identifier as `syn` is handed it: `$crate`, which a
/// declarative macro passes on but which cannot be lexed, is written as
/// the path root `crate`.
pub open spec fn ident_text(s: Seq<char>) -> Seq<char> {
    if s.len() > 0 && s[0] == '$' { s.drop_first() } else { s }
}

/// The source text of one token.
pub open spec fn tok_text(t: TokV) -> Seq<char> {
    match t {
        TokV::Ident(s) => ident_text(s).push(' '),
        TokV::Literal(s) => s.push(' '),
        TokV::Punct(c, Spacing::Joint) => seq![c],
        TokV::Punct(c, Spacing::Alone) => seq![c, ' '],
        TokV::Open(d) => match d {
            Delim::Paren => seq!['('],
            Delim::Brace => seq!['{'],
            Delim::Bracket => seq!['['],
            Delim::Invisible => seq![],
        },
        TokV::Close(d) => match d {
            Delim::Paren => seq![')', ' '],
            Delim::Brace => seq!['}', ' '],
            Delim::Bracket => seq![']', ' '],
            Delim::Invisible => seq![],
        },
    }
}

/// The source text of a sequence of tokens.
pub open spec fn text_of(s: Seq<TokV>) -> Seq<char>
    decreases s.len(),
{
    if s.len() == 0 {
        seq![]
    } else {
        text_of(s.drop_last()) + tok_text(s.last())
    }
}

/// What `<syn::Attribute>::parse_outer` accepts as the whole of its input.
pub uninterp spec fn syn_outer_attrs(text: Seq<char>) -> bool;

/// What `<syn::Visibility as syn::parse::Parse>::parse` accepts as the whole of its input.
pub uninterp spec fn syn_visibility(text: Seq<char>) -> bool;

/// What `<syn::Ident as syn::parse::Parse>::parse` accepts as the whole of its input.
pub uninterp spec fn syn_ident(text: Seq<char>) -> bool;

/// What `<syn::GenericParam as syn::parse::Parse>::parse` accepts as the whole of its input.
pub uninterp spec fn syn_generic_param(text: Seq<char>) -> bool;

/// What `<syn::Path as syn::parse::Parse>::parse` accepts as the whole of its input.
pub uninterp spec fn syn_path(text: Seq<char>) -> bool;

/// What `<syn::WhereClause as syn::parse::Parse>::parse` accepts as the whole of its input.
pub uninterp spec fn syn_where_clause(text: Seq<char>) -> bool;

/// What `<syn::Type as syn::parse::Parse>::parse` accepts as the whole of its input.
pub uninterp spec fn syn_type(text: Seq<char>) -> bool;

/// What `syn::Pat::parse_single` accepts as the whole of its input.
pub uninterp spec fn syn_pat(text: Seq<char>) -> bool;

/// What `<syn::ReturnType as syn::parse::Parse>::parse` accepts as the whole of its input.
pub uninterp spec fn syn_return_type(text: Seq<char>) -> bool;

/// What `<syn::GenericArgument as syn::parse::Parse>::parse` accepts as the whole of its input.
pub uninterp spec fn syn_generic_argument(text: Seq<char>) -> bool;

/// `syn` accepts `text` as a whole piece of syntax of kind `k`.
pub open spec fn accepts(k: Syntax, text: Seq<char>) -> bool {
    match k {
        Syntax::OuterAttrs => syn_outer_attrs(text),
        Syntax::Visibility => syn_visibility(text),
        Syntax::Ident => syn_ident(text),
        Syntax::GenericParam => syn_generic_param(text),
        Syntax::Path => syn_path(text),
        Syntax::WhereClause => syn_where_clause(text),
        Syntax::Type => syn_type(text),
        Syntax::Pat => syn_pat(text),
        Syntax::ReturnType => syn_return_type(text),
        Syntax::GenericArgument => syn_generic_argument(text),
    }
}

/// The tokens of `span` form a piece of syntax of kind `k`.
pub open spec fn valid(k: Syntax, ts: Seq<TokV>, span: Span) -> bool {
    accepts(k, text_of(span.of(ts)))
}

/// Calls `syn::parse::Parser::parse_str` with `syn::Attribute::parse_outer`:
/// it returns whether `syn` parses the whole of `text` as outer attributes,
/// which the contract names `syn_outer_attrs`.
#[verifier::external_body]
fn syn_parses_outer_attrs(text: &Vec<char>) -> (r: bool)
    ensures
        r == syn_outer_attrs(text@),
{
    syn::parse::Parser::parse_str(syn::Attribute::parse_outer, &text.iter().collect::<String>()).is_ok()
}

/// Calls `syn::parse_str::<syn::Visibility>`: whether `syn` parses the whole
/// of `text` as a visibility, named `syn_visibility`.
#[verifier::external_body]
fn syn_parses_visibility(text: &Vec<char>) -> (r: bool)
    ensures
        r == syn_visibility(text@),
{
    syn::parse_str::<syn::Visibility>(&text.iter().collect::<String>()).is_ok()
}

/// Calls `syn::parse_str::<syn::Ident>`: whether `syn` parses the whole of
/// `text` as an identifier that is not a keyword, named `syn_ident`.
#[verifier::external_body]
fn syn_parses_ident(text: &Vec<char>) -> (r: bool)
    ensures
        r == syn_ident(text@),
{
    syn::parse_str::<syn::Ident>(&text.iter().collect::<String>()).is_ok()
}

/// Calls `syn::parse_str::<syn::GenericParam>`: whether `syn` parses the
/// whole of `text` as a generic parameter, named `syn_generic_param`.
#[verifier::external_body]
fn syn_parses_generic_param(text: &Vec<char>) -> (r: bool)
    ensures
        r == syn_generic_param(text@),
{
    syn::parse_str::<syn::GenericParam>(&text.iter().collect::<String>()).is_ok()
}

/// Calls `syn::parse_str::<syn::Path>`: whether `syn` parses the whole of
/// `text` as a path, named `syn_path`.
#[verifier::external_body]
fn syn_parses_path(text: &Vec<char>) -> (r: bool)
    ensures
        r == syn_path(text@),
{
    syn::parse_str::<syn::Path>(&text.iter().collect::<String>()).is_ok()
}

/// Calls `syn::parse_str::<syn::WhereClause>`: whether `syn` parses the
/// whole of `text` as a `where` clause, named `syn_where_clause`.
#[verifier::external_body]
fn syn_parses_where_clause(text: &Vec<char>) -> (r: bool)
    ensures
        r == syn_where_clause(text@),
{
    syn::parse_str::<syn::WhereClause>(&text.iter().collect::<String>()).is_ok()
}

/// Calls `syn::parse_str::<syn::Type>`: whether `syn` parses the whole of
/// `text` as a type, named `syn_type`.
#[verifier::external_body]
fn syn_parses_type(text: &Vec<char>) -> (r: bool)
    ensures
        r == syn_type(text@),
{
    syn::parse_str::<syn::Type>(&text.iter().collect::<String>()).is_ok()
}

/// Calls `syn::parse::Parser::parse_str` with `syn::Pat::parse_single`:
/// whether `syn` parses the whole of `text` as a pattern, named `syn_pat`.
#[verifier::external_body]
fn syn_parses_pat(text: &Vec<char>) -> (r: bool)
    ensures
        r == syn_pat(text@),
{
    syn::parse::Parser::parse_str(syn::Pat::parse_single, &text.iter().collect::<String>()).is_ok()
}

/// Calls `syn::parse_str::<syn::ReturnType>`: whether `syn` parses the
/// whole of `text` as a return type (possibly none), named `syn_return_type`.
#[verifier::external_body]
fn syn_parses_return_type(text: &Vec<char>) -> (r: bool)
    ensures
        r == syn_return_type(text@),
{
    syn::parse_str::<syn::ReturnType>(&text.iter().collect::<String>()).is_ok()
}

/// Calls `syn::parse_str::<syn::GenericArgument>`: whether `syn` parses the
/// whole of `text` as a generic argument, named `syn_generic_argument`.
#[verifier::external_body]
fn syn_parses_generic_argument(text: &Vec<char>) -> (r: bool)
    ensures
        r == syn_generic_argument(text@),
{
    syn::parse_str::<syn::GenericArgument>(&text.iter().collect::<String>()).is_ok()
}

/// Appends the characters of `s` to `r`.
pub fn push_chars(r: &mut Vec<char>, s: &Vec<char>)
    ensures
        final(r)@ == old(r)@ + s@,
{
    let mut i: usize = 0;
    while i < s.len()
        invariant
            i <= s.len(),
            r@ == old(r)@ + s@.subrange(0, i as int),
        decreases s.len() - i,
    {
        r.push(s[i]);
        i = i + 1;
        assert(s@.subrange(0, i as int) =~= s@.subrange(0, i - 1).push(s@[i - 1]));
    }
    assert(s@.subrange(0, s@.len() as int) =~= s@);
}

/// Appends the source text of one token to `r`.
fn push_tok_text(r: &mut Vec<char>, t: &Tok)
    ensures
        final(r)@ == old(r)@ + tok_text(t@),
{
    match t {
        Tok::Ident(s) => {
            if s.len() > 0 && s[0] == '$' {
                let mut i: usize = 1;
                while i < s.len()
                    invariant
                        1 <= i <= s.len(),
                        s@.len() > 0,
                        r@ == old(r)@ + s@.subrange(1, i as int),
                    decreases s.len() - i,
                {
                    r.push(s[i]);
                    assert(s@.subrange(1, i + 1) =~= s@.subrange(1, i as int).push(s@[i as int]));
                    i = i + 1;
                }
                assert(s@.subrange(1, s@.len() as int) =~= s@.drop_first());
            } else {
                push_chars(r, s);
            }
            r.push(' ');
            assert(final(r)@ =~= old(r)@ + ident_text(s@).push(' '));
        },
        Tok::Literal(s) => {
            push_chars(r, s);
            r.push(' ');
            assert(old(r)@ + s@ + seq![' '] =~= old(r)@ + s@.push(' '));
        },
        Tok::Punct(c, sp) => {
            r.push(*c);
            if *sp == Spacing::Alone {
                r.push(' ');
            }
            assert(final(r)@ =~= old(r)@ + tok_text(t@));
        },
        Tok::Open(d) => {
            match d {
                Delim::Paren => r.push('('),
                Delim::Brace => r.push('{'),
                Delim::Bracket => r.push('['),
                Delim::Invisible => {},
            }
            assert(final(r)@ =~= old(r)@ + tok_text(t@));
        },
        Tok::Close(d) => {
            match d {
                Delim::Paren => { r.push(')'); r.push(' '); },
                Delim::Brace => { r.push('}'); r.push(' '); },
                Delim::Bracket => { r.push(']'); r.push(' '); },
                Delim::Invisible => {},
            }
            assert(final(r)@ =~= old(r)@ + tok_text(t@));
        },
    }
}

/// The source text of the tokens of `span`.
pub fn render(toks: &Vec<Tok>, span: Span) -> (r: Vec<char>)
    requires
        span.start <= span.end <= toks@.len(),
    ensures
        r@ == text_of(span.of(tv(toks@))),
{
    let ghost ts = tv(toks@);
    let mut r: Vec<char> = Vec::new();
    let mut i = span.start;
    assert(ts.subrange(span.start as int, span.start as int) =~= Seq::<TokV>::empty());
    while i < span.end
        invariant
            span.start <= i <= span.end <= toks@.len(),
            ts == tv(toks@),
            r@ == text_of(ts.subrange(span.start as int, i as int)),
        decreases span.end - i,
    {
        push_tok_text(&mut r, &toks[i]);
        assert(ts.subrange(span.start as int, i + 1).drop_last()
            =~= ts.subrange(span.start as int, i as int));
        i = i + 1;
    }
    r
}

/// Whether `syn` accepts the tokens of `span` as a whole piece of syntax of
/// kind `k`.
pub fn is_valid(k: Syntax, toks: &Vec<Tok>, span: Span) -> (r: bool)
    requires
        span.start <= span.end <= toks@.len(),
    ensures
        r == valid(k, tv(toks@), span),
{
    let text = render(toks, span);
    match k {
        Syntax::OuterAttrs => syn_parses_outer_attrs(&text),
        Syntax::Visibility => syn_parses_visibility(&text),
        Syntax::Ident => syn_parses_ident(&text),
        Syntax::GenericParam => syn_parses_generic_param(&text),
        Syntax::Path => syn_parses_path(&text),
        Syntax::WhereClause => syn_parses_where_clause(&text),
        Syntax::Type => syn_parses_type(&text),
        Syntax::Pat => syn_parses_pat(&text),
        Syntax::ReturnType => syn_parses_return_type(&text),
        Syntax::GenericArgument => syn_parses_generic_argument(&text),
    }
}

} // verus!
