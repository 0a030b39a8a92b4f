//! The info of a message, as a handler of the script gets it.

use vstd::prelude::*;

use crate::config::value::{RawModel, RawValue};

verus! {

/// What a handler of the script is told about the message that it is asked
/// about.
#[derive(Debug)]
pub struct MessageInfo {
    variant: Option<String>,
}

pub struct MessageInfoBuilder {
    inner: MessageInfo,
}

/// The plain data that stands for a text that may be missing.
pub open spec fn optional_text_model<F>(text: Option<Seq<char>>) -> RawModel<F> {
    match text {
        Some(t) => RawModel::Text(t),
        None => RawModel::Null,
    }
}

/// The plain data that stands for a text that may be missing.
pub fn optional_text_raw<F>(text: &Option<String>) -> (raw: RawValue<F>)
    ensures
        raw.model() == optional_text_model::<F>(
            match text {
                Some(t) => Some(t@),
                None => None,
            },
        ),
{
    match text {
        Some(t) => RawValue::Text(t.clone()),
        None => RawValue::Null,
    }
}

impl MessageInfo {
    /// The variant of the command, if the message names one.
    pub closed spec fn spec_variant(&self) -> Option<Seq<char>> {
        match self.variant {
            Some(v) => Some(v@),
            None => None,
        }
    }

    /// The variant of the command, if the message names one.
    pub fn variant(&self) -> (variant: Option<&str>)
        ensures
            match variant {
                Some(v) => self.spec_variant() == Some(v@),
                None => self.spec_variant() is None,
            },
    {
        match &self.variant {
            Some(v) => Some(v.as_str()),
            None => None,
        }
    }

    /// The info as plain data for the script: an object with the field
    /// `variant`.
    pub fn to_raw<F>(&self) -> (raw: RawValue<F>)
        ensures
            raw.model() == RawModel::<F>::Object(
                seq![("variant"@, optional_text_model::<F>(self.spec_variant()))],
            ),
    {
        let mut fields: Vec<(String, RawValue<F>)> = Vec::new();
        fields.push(("variant".to_owned(), optional_text_raw(&self.variant)));
        let raw = RawValue::Object(fields);
        proof {
            assert(raw.model()->Object_0 =~= seq![
                ("variant"@, optional_text_model::<F>(self.spec_variant())),
            ]);
        }
        raw
    }
}

impl MessageInfoBuilder {
    /// The info that the builder will give.
    pub closed spec fn spec_variant(&self) -> Option<Seq<char>> {
        self.inner.spec_variant()
    }

    pub fn new() -> (builder: Self)
        ensures
            builder.spec_variant() is None,
    {
        Self { inner: MessageInfo { variant: None } }
    }

    pub fn set_variant(self, variant: Option<String>) -> (builder: Self)
        ensures
            builder.spec_variant() == match variant {
                Some(v) => Some(v@),
                None => None,
            },
    {
        MessageInfoBuilder { inner: MessageInfo { variant } }
    }

    pub fn build(self) -> (info: MessageInfo)
        ensures
            info.spec_variant() == self.spec_variant(),
    {
        self.inner
    }
}

} // verus!
