//! The trait of classes without a virtual function table.

use vstd::prelude::*;

verus! {

/// A class without a virtual function table. The class macro implements it
/// for every class that has no virtual items and no virtual base, and for
/// no other type; such a type does not implement `Virtual`.
///
/// This is the library's statement of the trait, written, like the rest of
/// the library, without `unsafe`. The macro's runtime declares the trait
/// that generated code implements as an `unsafe trait`, since unsafe code
/// relies on what it promises.
pub trait NonVirtual {
    /// The class itself.
    type This;
}

} // verus!
