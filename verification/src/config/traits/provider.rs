//! What a script engine provides: values, callables, and the
//! configuration of a script.

use vstd::prelude::*;

use crate::config::value::RawValue;
use crate::config::RunnerConfig;

verus! {

/// A script engine, as the host sees it: its callables, its values, its
/// errors, and the way to a configuration from what the engine is started
/// with.
pub trait Provider: Sized {
    /// A callable of the engine, held by the host as an ordinary handle.
    type Function;

    /// A value of the engine, held by the host as an ordinary handle.
    type Value;

    type Error;

    /// What the engine is started with: the source of a script.
    type InitData;

    /// Runs the script and hands back its configuration, every callable in
    /// its place.
    fn init_config(&self, d: Self::InitData) -> Result<RunnerConfig<Self>, Self::Error>;
}

/// A callable: called with a list of values, it gives a value, or none, or
/// fails with an error of the engine. The call blocks until the engine has
/// answered.
pub trait ProviderCall<P: Provider> {
    fn call(&self, args: &[&P::Value]) -> Result<Option<P::Value>, P::Error>;
}

/// A value that can be turned into plain data of the host.
pub trait ProviderDeserialize<P: Provider> {
    fn de_into(&self) -> Result<RawValue<P::Function>, P::Error>;
}

/// A value that can be made from plain data of the host.
pub trait ProviderSerialize<P: Provider>: Sized {
    fn se_from(from: &RawValue<P::Function>) -> Result<Self, P::Error>;
}

/// An error of the engine that can be put into words.
pub trait ProviderError {
    fn describe(&self) -> String;
}

} // verus!
