//! The marker for class inheritance.

use vstd::prelude::*;

verus! {

/// Marks a C++ class that inherits from `Base`. The class macro implements
/// it for every class that names `Base` first among the classes it inherits,
/// and lays that class out with `Base` as its first inherited part: the
/// first field of a plain class, the first field of the data of a class
/// with a vtable, and, when `Base` is virtual, the first entry of its table.
///
/// This is the library's statement of the trait, written, like the rest of
/// the library, without `unsafe`. The macro's runtime declares the trait
/// that generated code implements as an `unsafe trait`, since unsafe code
/// relies on what it promises.
pub trait Inherits<Base> {}

} // verus!
