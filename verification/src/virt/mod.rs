//! The trait of classes with a virtual function table.

use vstd::prelude::*;


verus! {

/// A class with a virtual function table. The class macro implements it
/// for every class that has virtual items or a virtual base, and for no
/// other type; such a type does not implement `NonVirtual`. The class is a
/// struct whose first field is a `VTablePtr<Self::VTable>` and whose second
/// field is a `Self::Data`.
///
/// This is the library's statement of the trait, written, like the rest of
/// the library, without `unsafe`. The macro's runtime declares the trait
/// that generated code implements as an `unsafe trait`, since unsafe code
/// relies on what it promises.
pub trait Virtual {
    /// The class itself.
    type This;
    /// The virtual function table of the class.
    type VTable;
    /// The data of the class.
    type Data;
}

} // verus!
