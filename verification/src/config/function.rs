//! The slots of a configuration that hold callables of the script.

use std::sync::Arc;

use vstd::prelude::*;

use crate::config::result::{provider_err_text, ConfigError, ConfigResult};
use crate::config::traits::provider::{
    Provider, ProviderCall, ProviderDeserialize, ProviderError,
};
use crate::config::value::{RawModel, RawValue};
use crate::utils::parcelable::{
    ParcelFault, ParcelType, Parcelable, ParcelableError, ParcelableResult,
};

verus! {

/// A place of the configuration that holds a callable of the script.
pub enum FunctionSlot<F> {
    /// The callable has not been put back yet: only the dotted path of its
    /// place in the script's configuration is known.
    Placeholder(String),
    /// The live callable, shared by every copy of the slot.
    Live(Arc<F>),
}

/// The mathematical form of a `FunctionSlot`.
pub enum SlotModel<F> {
    Placeholder(Seq<char>),
    Live(F),
}

/// A callable of the script, as the configuration holds it.
pub struct BotFunction<P: Provider>(pub FunctionSlot<P::Function>);

/// The text of the error for a call of a callable that was never put back.
pub open spec fn not_attached_text(path: Seq<char>) -> Seq<char> {
    "function is not attached: "@ + path
}

/// The slot that a value of a script stands for: a placeholder stands for
/// a callable that has been taken out. With `live`, a callable that is
/// still in its place stands for itself; without, only plain data is read,
/// and a live callable is no slot. Nothing else is a callable.
pub open spec fn slot_of<F>(raw: RawModel<F>, live: bool) -> Option<SlotModel<F>> {
    match raw {
        RawModel::Placeholder(path) => Some(SlotModel::Placeholder(path)),
        RawModel::Function(f) => if live {
            Some(SlotModel::Live(f))
        } else {
            None
        },
        _ => None,
    }
}

/// `Arc::clone` of std: another pointer to the same value.
#[verifier::external_body]
pub(crate) fn share<F>(handle: &Arc<F>) -> (shared: Arc<F>)
    ensures
        shared == *handle,
{
    Arc::clone(handle)
}

impl<F> FunctionSlot<F> {
    /// The slot as a mathematical value.
    pub open spec fn model(&self) -> SlotModel<F> {
        match self {
            FunctionSlot::Placeholder(path) => SlotModel::Placeholder(path@),
            FunctionSlot::Live(function) => SlotModel::Live(**function),
        }
    }
}

impl<P: Provider> BotFunction<P> {
    /// The slot as a mathematical value.
    pub open spec fn model(&self) -> SlotModel<P::Function> {
        self.0.model()
    }

    /// A slot for the callable that stood at `path`.
    pub fn placeholder(path: String) -> (f: Self)
        ensures
            f.model() == SlotModel::<P::Function>::Placeholder(path@),
    {
        BotFunction(FunctionSlot::Placeholder(path))
    }

    /// A slot that holds the live callable.
    pub fn live(function: P::Function) -> (f: Self)
        ensures
            f.model() == SlotModel::<P::Function>::Live(function),
    {
        BotFunction(FunctionSlot::Live(Arc::new(function)))
    }

    /// Reads a slot from a value of a script.
    pub fn from_raw(raw: &RawValue<P::Function>) -> (slot: Option<Self>)
        ensures
            match slot_of(raw.model(), false) {
                Some(m) => slot matches Some(f) && f.model() == m,
                None => slot is None,
            },
    {
        match raw {
            RawValue::Placeholder(path) => Some(BotFunction(FunctionSlot::Placeholder(path.clone()))),
            _ => None,
        }
    }

    /// Whether the slot holds a live callable.
    pub fn is_live(&self) -> (live: bool)
        ensures
            live == (self.model() is Live),
    {
        match &self.0 {
            FunctionSlot::Live(_) => true,
            FunctionSlot::Placeholder(_) => false,
        }
    }

    /// A copy of the slot; a live callable is shared, not made anew.
    pub fn duplicate(&self) -> (copy: Self)
        ensures
            copy.model() == self.model(),
    {
        match &self.0 {
            FunctionSlot::Live(function) => BotFunction(FunctionSlot::Live(share(function))),
            FunctionSlot::Placeholder(path) => BotFunction(FunctionSlot::Placeholder(path.clone())),
        }
    }

    /// What a call hands back for the answer `answer` of the engine: the
    /// value as it is, an error of the engine put into words.
    pub fn call_outcome(answer: Result<Option<P::Value>, P::Error>) -> (outcome: ConfigResult<
        Option<P::Value>,
    >) where P::Error: ProviderError
        ensures
            match answer {
                Ok(value) => outcome == Ok::<Option<P::Value>, ConfigError>(value),
                Err(_) => outcome matches Err(ConfigError::ProviderError(msg)) && exists|
                    description: Seq<char>,
                |
                    msg@ == provider_err_text(description),
            },
    {
        match answer {
            Ok(value) => Ok(value),
            Err(err) => Err(ConfigError::as_provider_err(&err)),
        }
    }

    /// The plain data that a callable gave, for the answer `answer` of its
    /// call: an error stays what it is, and an answer without a value is an
    /// error. A value is turned into plain data by the engine; where the
    /// engine cannot do so, its error is put into words.
    pub fn returned(answer: ConfigResult<Option<P::Value>>) -> (data: ConfigResult<
        RawValue<P::Function>,
    >) where P::Value: ProviderDeserialize<P>, P::Error: ProviderError
        ensures
            match answer {
                Err(e) => data == Err::<RawValue<P::Function>, ConfigError>(e),
                Ok(None) => data matches Err(ConfigError::Other(msg)) && msg@
                    == "Function didn't return value"@,
                Ok(Some(_)) => data is Ok || data matches Err(ConfigError::ProviderError(_)),
            },
    {
        match answer {
            Err(e) => Err(e),
            Ok(None) => Err(ConfigError::Other("Function didn't return value".to_owned())),
            Ok(Some(value)) => match value.de_into() {
                Ok(data) => Ok(data),
                Err(err) => Err(ConfigError::as_provider_err(&err)),
            },
        }
    }

    /// Calls the callable without arguments.
    pub fn call(&self) -> (outcome: ConfigResult<Option<P::Value>>) where
        P::Function: ProviderCall<P>,
        P::Error: ProviderError,

        ensures
            self.model() matches SlotModel::Placeholder(path) ==> outcome matches Err(
                ConfigError::Other(msg),
            ) && msg@ == not_attached_text(path),
            self.model() is Live ==> !(outcome matches Err(ConfigError::Other(_))),
    {
        let args: Vec<&P::Value> = Vec::new();
        self.call_args(args.as_slice())
    }

    /// Calls the callable with `args`. A slot whose callable was never put
    /// back gives an error; the engine is not asked.
    pub fn call_args(&self, args: &[&P::Value]) -> (outcome: ConfigResult<Option<P::Value>>) where
        P::Function: ProviderCall<P>,
        P::Error: ProviderError,

        ensures
            self.model() matches SlotModel::Placeholder(path) ==> outcome matches Err(
                ConfigError::Other(msg),
            ) && msg@ == not_attached_text(path),
            self.model() is Live ==> !(outcome matches Err(ConfigError::Other(_))),
    {
        match &self.0 {
            FunctionSlot::Live(function) => {
                let answer = function.call(args);
                Self::call_outcome(answer)
            },
            FunctionSlot::Placeholder(path) => Err(
                ConfigError::Other("function is not attached: ".to_owned().concat(path.as_str())),
            ),
        }
    }
}

impl<P: Provider> Parcelable<P::Function> for BotFunction<P> {
    type Model = SlotModel<P::Function>;

    open spec fn parcel_model(&self) -> SlotModel<P::Function> {
        self.model()
    }

    /// A slot takes the callable where the path ends at it; it has no
    /// children.
    open spec fn attached(
        model: SlotModel<P::Function>,
        path: Option<Seq<char>>,
        function: P::Function,
    ) -> Result<SlotModel<P::Function>, ParcelFault> {
        match path {
            None => Ok(SlotModel::Live(function)),
            Some(_) => Err(ParcelFault::Nest),
        }
    }

    open spec fn kind_of(model: SlotModel<P::Function>) -> ParcelType {
        ParcelType::Function
    }

    proof fn lemma_slot(model: SlotModel<P::Function>, function: P::Function) {
    }

    fn resolve(&self) -> (kind: ParcelType) {
        ParcelType::Function
    }

    fn attach(&mut self, path: Option<&str>, function: Arc<P::Function>) -> (done:
        ParcelableResult<()>) {
        match path {
            None => {
                self.0 = FunctionSlot::Live(function);
                Ok(())
            },
            Some(rest) => Err(ParcelableError::end_of_nesting(rest)),
        }
    }
}

} // verus!
