//! Helpers: tables by name, and nodes that are addressed by dotted paths.

pub mod parcelable;
pub mod table;
