//! A minimal in-memory-to-text JSON serializer.
//!
//! A caller builds a tree of [`Json`] containers and [`JsonVal`] values and
//! asks for its compact JSON text. Serialization is one-directional: there
//! is no parser and no validation beyond what the types enforce.

pub mod laws;
pub mod ser;
pub mod tree;

pub use tree::Json;
pub use tree::JsonVal;
