//! A compiler for bitfield registers.
//!
//! A register is a storage cell of 8, 16 or 32 bits, divided into named
//! fields. Each field takes a run of bits, holds a boolean, an unsigned
//! integer or a value of a type with its own codec, and offers a get, a set
//! and a clear as its access mode says.
//!
//! - `token`: the tokens of an attribute, and the plain forms of paths and
//!   types;
//! - `attrs`: the language of a field's attribute, with its paths as `syn`
//!   reads them;
//! - `layout`: from the declaration of a register to the place of every
//!   field;
//! - `bits`: masks, and what reading and writing do to the storage;
//! - `access`: the accessors of a field and of a register;
//! - `field`, `codec`: values as bit patterns, and the codes of an
//!   enumeration;
//! - `error`: what can be wrong with a declaration.

pub mod access;
pub mod attrs;
pub mod bits;
pub mod codec;
pub mod error;
pub mod field;
pub mod layout;
pub mod token;

pub use crate::codec::derive_register_field;
pub use crate::layout::register;
