//! The script engines.

pub mod mlua;
pub mod v8;
