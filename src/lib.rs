//! A C source emitter for a lowered, typed intermediate representation.
//!
//! The crate maps IR types to C spellings, orders aggregate definitions so
//! that no type is laid out before the types it embeds, renders method
//! declarations and bodies, and assembles everything into one C unit.
pub mod text;
pub mod ir;
pub mod ctype;
pub mod method;
pub mod names;
pub mod layout;
pub mod exporter;
pub mod toolchain;
pub mod laws;
