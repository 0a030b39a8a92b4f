//! The contracts between the host and a script engine.

pub mod provider;
pub mod resolve_value;
