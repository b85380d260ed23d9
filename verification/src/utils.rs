//! Helpers shared by the modules of the stack.

pub mod freezable_ref_cell;

pub use freezable_ref_cell::FreezableRefCell;
pub use freezable_ref_cell::RefMut;
