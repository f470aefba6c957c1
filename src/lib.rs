//! Typed documentation for types exposed to an embedded Lua runtime.
//!
//! The library describes host types as schema nodes (records and enums),
//! renders function signatures in the scripting language's notation,
//! derives the static-only view of a type, and collects everything into a
//! deduplicated document.

pub mod generator;
pub mod laws;
pub mod proxy;
pub mod types;
pub mod walker;
