//! Why a class declaration was refused.

use vstd::prelude::*;
use crate::tokens::Delim;
use crate::syntax::Syntax;

verus! {

/// What the grammar expected to find at the position of an error.
#[derive(Clone, Copy, PartialEq, Eq, Debug, Structural)]
pub enum Expected {
    /// A punctuation character.
    Punct(char),
    /// The keyword `fn`.
    Fn,
    /// The keyword `as`.
    As,
    /// An identifier that is not a keyword.
    Ident,
    /// A group with this delimiter.
    Group(Delim),
    /// `virtual`, `use` or an identifier, at the start of an item.
    ItemStart,
    /// A piece of syntax of this kind.
    Syntax(Syntax),
    /// The end of the input.
    End,
    /// The token that closes the group opened here.
    Closing,
}

/// A refused declaration: what was expected at which token.
#[derive(Clone, Copy, PartialEq, Eq, Debug, Structural)]
pub struct ParseError {
    pub at: usize,
    pub expected: Expected,
}

pub open spec fn err(at: int, expected: Expected) -> ParseError {
    ParseError { at: at as usize, expected }
}

} // verus!
