//! The requests and the answers of the script-runtime actor, the thread
//! that owns the interpreter.

pub mod value_replace;

use vstd::prelude::*;

verus! {

/// A request to the thread that owns the interpreter.
pub enum EventType<F, V> {
    /// Evaluate the script and extract its typed configuration.
    GetScriptConfig(String),
    /// Call a function handle with argument values.
    ExecuteFunction(F, Vec<V>),
}

/// An answer of the thread that owns the interpreter.
pub enum RuntimeReturn<V, C> {
    Value(V),
    OptionalValue(Option<V>),
    Config(C),
}

/// Why a request to the script-runtime actor failed.
#[derive(Clone, Copy, Debug, PartialEq, Eq, Structural)]
pub enum ActorError {
    /// The thread that owns the interpreter has ended: the actor has to be
    /// torn down and made anew.
    RuntimeUnavailable,
    /// The answer is not of the kind that the request asks for.
    UnexpectedAnswer,
}

/// What the script-runtime actor is started with.
pub struct V8Init {
    code: String,
}

/// The key under which the actor keeps a value of the engine.
#[derive(Clone, Debug)]
pub struct ValueHandler {
    value: String,
}

impl<V, C> RuntimeReturn<V, C> {
    pub fn as_value(self) -> (value: Option<V>)
        ensures
            value == match self {
                RuntimeReturn::Value(v) => Some(v),
                _ => None,
            },
    {
        if let Self::Value(v) = self {
            Some(v)
        } else {
            None
        }
    }

    pub fn as_optional_value(self) -> (value: Option<Option<V>>)
        ensures
            value == match self {
                RuntimeReturn::OptionalValue(v) => Some(v),
                _ => None,
            },
    {
        if let Self::OptionalValue(v) = self {
            Some(v)
        } else {
            None
        }
    }

    pub fn as_config(self) -> (config: Option<C>)
        ensures
            config == match self {
                RuntimeReturn::Config(c) => Some(c),
                _ => None,
            },
    {
        if let Self::Config(v) = self {
            Some(v)
        } else {
            None
        }
    }

    /// What a call of a function handle gets from the answer `answer` of
    /// the actor: `None` stands for an actor whose thread has ended, so
    /// that no answer came.
    pub fn call_result(answer: Option<Self>) -> (result: Result<Option<V>, ActorError>)
        ensures
            result == match answer {
                None => Err::<Option<V>, ActorError>(ActorError::RuntimeUnavailable),
                Some(RuntimeReturn::OptionalValue(v)) => Ok(v),
                Some(_) => Err(ActorError::UnexpectedAnswer),
            },
    {
        match answer {
            None => Err(ActorError::RuntimeUnavailable),
            Some(answer) => match answer.as_optional_value() {
                Some(v) => Ok(v),
                None => Err(ActorError::UnexpectedAnswer),
            },
        }
    }

    /// What a request for the configuration gets from the answer `answer`
    /// of the actor: `None` stands for an actor whose thread has ended.
    pub fn config_result(answer: Option<Self>) -> (result: Result<C, ActorError>)
        ensures
            result == match answer {
                None => Err::<C, ActorError>(ActorError::RuntimeUnavailable),
                Some(RuntimeReturn::Config(c)) => Ok(c),
                Some(_) => Err(ActorError::UnexpectedAnswer),
            },
    {
        match answer {
            None => Err(ActorError::RuntimeUnavailable),
            Some(answer) => match answer.as_config() {
                Some(c) => Ok(c),
                None => Err(ActorError::UnexpectedAnswer),
            },
        }
    }
}

impl V8Init {
    /// The source of the script.
    pub closed spec fn spec_code(&self) -> Seq<char> {
        self.code@
    }

    pub fn new(code: String) -> (init: Self)
        ensures
            init.spec_code() == code@,
    {
        V8Init { code }
    }

    /// The source of the script.
    pub fn code(&self) -> (code: &str)
        ensures
            code@ == self.spec_code(),
    {
        self.code.as_str()
    }
}

impl ValueHandler {
    /// The key.
    pub closed spec fn spec_value(&self) -> Seq<char> {
        self.value@
    }

    pub fn new(value: String) -> (handler: Self)
        ensures
            handler.spec_value() == value@,
    {
        ValueHandler { value }
    }

    pub fn get_value(&self) -> (value: &str)
        ensures
            value@ == self.spec_value(),
    {
        self.value.as_str()
    }
}

} // verus!
