//! Definitions that resolve to plain data by calling the script.

use vstd::prelude::*;

use crate::config::result::ConfigResult;
use crate::config::traits::provider::Provider;

verus! {

/// A definition that may be a callable of the script: resolving it calls
/// the script until plain data is left.
pub trait ResolveValue {
    type Value;

    type Runtime: Provider;

    fn resolve(self) -> ConfigResult<Self::Value>;
}

} // verus!
