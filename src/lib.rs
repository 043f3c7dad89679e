//! A read-only filesystem adapter over an immutable archive index.
//!
//! Nodes are addressed by the archive's own identifiers (position in the
//! path-sorted node table plus one, so the root is 1). Every operation is a
//! pure function of the index and its arguments.
pub mod kind;
pub mod path;
pub mod fs;
pub mod laws;
