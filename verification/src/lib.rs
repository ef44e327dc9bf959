//! A versioned serialization layer for the hash entities of a structured
//! document model: a canonical in-memory representation, per-schema-version
//! adapters to and from it, and a structured tree writer/reader protocol
//! that turns the versioned representation into a nested element stream
//! and back, preserving document order, attributes and text content.

pub mod models;
pub mod reader;
pub mod sink;
pub mod tree;
pub mod v1_3;
