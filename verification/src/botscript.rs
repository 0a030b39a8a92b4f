//! What the host tells the scripts, and what can go wrong between them.

pub mod message_info;

use vstd::prelude::*;

verus! {

/// Why data of a script could not be resolved.
#[derive(Debug)]
pub enum ResolveError {
    /// The literal is not one that the store holds.
    IncorrectLiteral(String),
}

} // verus!
