//! A flat model of a Rust token stream.
//!
//! Groups are written as an opening and a closing token, so a stream is a
//! plain sequence that the parser walks by position.

use vstd::prelude::*;

verus! {

/// The delimiter of a token group.
#[derive(Clone, Copy, PartialEq, Eq, Debug, Structural)]
pub enum Delim {
    Paren,
    Brace,
    Bracket,
    /// A group without visible delimiters.
    Invisible,
}

/// Whether a punctuation character is immediately followed by another one.
#[derive(Clone, Copy, PartialEq, Eq, Debug, Structural)]
pub enum Spacing {
    Alone,
    Joint,
}

/// One token of a stream.
#[derive(Debug)]
pub enum Tok {
    Ident(Vec<char>),
    Punct(char, Spacing),
    Literal(Vec<char>),
    Open(Delim),
    Close(Delim),
}

/// The mathematical value of a token.
pub enum TokV {
    Ident(Seq<char>),
    Punct(char, Spacing),
    Literal(Seq<char>),
    Open(Delim),
    Close(Delim),
}

impl View for Tok {
    type V = TokV;

    open spec fn view(&self) -> TokV {
        match self {
            Tok::Ident(s) => TokV::Ident(s@),
            Tok::Punct(c, sp) => TokV::Punct(*c, *sp),
            Tok::Literal(s) => TokV::Literal(s@),
            Tok::Open(d) => TokV::Open(*d),
            Tok::Close(d) => TokV::Close(*d),
        }
    }
}

/// The values of a sequence of tokens.
pub open spec fn tv(s: Seq<Tok>) -> Seq<TokV> {
    s.map_values(|t: Tok| t@)
}

/// Copies a sequence of characters.
pub fn copy_chars(s: &Vec<char>) -> (r: Vec<char>)
    ensures
        r@ == s@,
{
    let mut r: Vec<char> = Vec::new();
    let mut i: usize = 0;
    while i < s.len()
        invariant
            i <= s.len(),
            r@ == s@.subrange(0, i as int),
        decreases s.len() - i,
    {
        r.push(s[i]);
        i = i + 1;
    }
    r
}

/// Copies a token.
pub fn copy_tok(t: &Tok) -> (r: Tok)
    ensures
        r@ == t@,
{
    match t {
        Tok::Ident(s) => Tok::Ident(copy_chars(s)),
        Tok::Punct(c, sp) => Tok::Punct(*c, *sp),
        Tok::Literal(s) => Tok::Literal(copy_chars(s)),
        Tok::Open(d) => Tok::Open(*d),
        Tok::Close(d) => Tok::Close(*d),
    }
}

} // verus!
