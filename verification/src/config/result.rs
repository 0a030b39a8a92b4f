//! The errors of a configuration.

use vstd::prelude::*;

use crate::config::traits::provider::ProviderError;

verus! {

#[derive(Debug)]
pub enum ConfigError {
    /// The store failed.
    DBError(String),
    /// The script engine failed.
    ProviderError(String),
    Other(String),
}

pub type ConfigResult<T> = Result<T, ConfigError>;

/// Why a typed configuration could not be built from what a script
/// exposed: the part that has not the shape that it must have.
#[derive(Clone, Copy, Debug, PartialEq, Eq, Structural)]
pub enum LoadError {
    /// What the script exposed is not an object.
    Root,
    /// The block `config`, with the version and the time zone.
    Config,
    /// The block `dialog`.
    Dialog,
    /// The list `notifications`.
    Notifications,
}

/// The text of the error that stands for an engine's error with the
/// description `description`.
pub open spec fn provider_err_text(description: Seq<char>) -> Seq<char> {
    "ProviderError: "@ + description
}

impl ConfigError {
    /// The error that stands for an engine's error with that description.
    pub fn provider_err(description: &str) -> (e: Self)
        ensures
            e matches ConfigError::ProviderError(msg) && msg@ == provider_err_text(description@),
    {
        ConfigError::ProviderError("ProviderError: ".to_owned().concat(description))
    }

    /// The error that stands for an error of the engine.
    pub fn as_provider_err<E: ProviderError>(err: &E) -> (e: Self)
        ensures
            e matches ConfigError::ProviderError(msg) && exists|description: Seq<char>|
                msg@ == provider_err_text(description),
    {
        let description = err.describe();
        Self::provider_err(description.as_str())
    }

    /// An error with the text `text`.
    pub fn other(text: &str) -> (e: Self)
        ensures
            e matches ConfigError::Other(msg) && msg@ == text@,
    {
        ConfigError::Other(text.to_owned())
    }
}

} // verus!
