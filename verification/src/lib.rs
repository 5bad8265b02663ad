//! Verified core of the `class!` macro: a model of Rust token streams,
//! the grammar of a C++-style class declaration over it, and the expansion
//! of a parsed class into `#[repr(C)]` structs, vtables and trait impls.
//! Beside it stand the small runtime types that the expansion refers to.

pub mod tokens;
pub mod scan;
pub mod syntax;
pub mod error;
pub mod parse;
pub mod items;
pub mod naming;
pub mod emit;
pub mod expand;
pub mod laws;

pub mod inheritance;
pub mod non_virt;
pub mod usage;
pub mod virt;

pub use inheritance::Inherits;
pub use non_virt::NonVirtual;
pub use usage::Usage;
pub use virt::Virtual;
