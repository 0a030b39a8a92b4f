//! The message that answers a command or a button.

use std::sync::Arc;

use vstd::prelude::*;

use crate::config::dialog::button::text_of;
use crate::config::dialog::button::ButtonRaw;
use crate::config::dialog::keyboard::{
    is_settled_keyboard, keyboard_of, keyboard_settled, settled_keyboard, KeyboardDefinition,
    KeyboardModel,
};
use crate::config::function::{slot_of, BotFunction, SlotModel};
use crate::config::result::ConfigResult;
use crate::config::traits::provider::{
    Provider, ProviderCall, ProviderDeserialize, ProviderError,
};
use crate::config::value::{bool_in, find_field, given_field, text_in, RawModel, RawValue};
use crate::text::str_eq;
use crate::utils::parcelable::{
    head_of, split_path, tail_of, ParcelFault, ParcelType, Parcelable, ParcelableError,
    ParcelableResult,
};

verus! {

/// What the bot does on a command or on a button.
pub struct BotMessage<P: Provider> {
    /// The key of the text to show, which the store holds.
    pub literal: Option<String>,
    /// Whether the answer takes the place of the message that holds the
    /// button.
    pub replace: bool,
    pub buttons: Option<KeyboardDefinition<P>>,
    /// The name of the state that the dialog goes to.
    pub state: Option<String>,
    /// flag options to command is meta, so it will be appended to user.metas in db
    pub meta: Option<bool>,
    /// Asked whether the default handling is to go on.
    pub handler: Option<BotFunction<P>>,
}

/// The mathematical form of a `BotMessage`.
pub struct MessageModel<F> {
    pub literal: Option<Seq<char>>,
    pub replace: bool,
    pub buttons: Option<KeyboardModel<F>>,
    pub state: Option<Seq<char>>,
    pub meta: Option<bool>,
    pub handler: Option<SlotModel<F>>,
}

/// A message with its literal filled in: a message that has none gets `l`.
pub open spec fn with_literal<F>(m: MessageModel<F>, l: Seq<char>) -> MessageModel<F> {
    MessageModel {
        literal: match m.literal {
            Some(own) => Some(own),
            None => Some(l),
        },
        ..m
    }
}

/// A message with its defaults set: the message `start` counts as
/// onboarding unless it says otherwise.
pub open spec fn with_defaults<F>(m: MessageModel<F>) -> MessageModel<F> {
    if m.meta is None && m.literal == Some("start"@) {
        MessageModel { meta: Some(true), ..m }
    } else {
        m
    }
}

/// The keyboard of a message: `Some(None)` where the message has none,
/// `None` where what stands there is no keyboard.
pub open spec fn keyboard_in<F>(field: Option<RawModel<F>>, live: bool) -> Option<Option<KeyboardModel<F>>> {
    match field {
        None => Some(None),
        Some(raw) => match keyboard_of(raw, live) {
            Some(k) => Some(Some(k)),
            None => None,
        },
    }
}

/// The handler of a message: `Some(None)` where the message has none,
/// `None` where what stands there is no callable.
pub open spec fn slot_in<F>(field: Option<RawModel<F>>, live: bool) -> Option<Option<SlotModel<F>>> {
    match field {
        None => Some(None),
        Some(raw) => match slot_of(raw, live) {
            Some(s) => Some(Some(s)),
            None => None,
        },
    }
}

/// A message as a script writes it: an object with the optional fields
/// `literal`, `replace`, `buttons`, `state`, `meta` and `handler`. A
/// message that does not say whether it replaces does not.
pub open spec fn message_of<F>(raw: RawModel<F>, live: bool) -> Option<MessageModel<F>> {
    match raw {
        RawModel::Object(fields) => {
            let literal = text_in(given_field(fields, "literal"@));
            let replace = bool_in(given_field(fields, "replace"@));
            let buttons = keyboard_in(given_field(fields, "buttons"@), live);
            let state = text_in(given_field(fields, "state"@));
            let meta = bool_in(given_field(fields, "meta"@));
            let handler = slot_in(given_field(fields, "handler"@), live);
            if literal is Some && replace is Some && buttons is Some && state is Some && meta is Some
                && handler is Some {
                Some(
                    MessageModel {
                        literal: literal->0,
                        replace: replace->0 == Some(true),
                        buttons: buttons->0,
                        state: state->0,
                        meta: meta->0,
                        handler: handler->0,
                    },
                )
            } else {
                None
            }
        },
        _ => None,
    }
}

impl<P: Provider> BotMessage<P> {
    /// Reads a message from a value of a script.
    pub fn from_raw(raw: &RawValue<P::Function>) -> (message: Option<Self>)
        ensures
            match message_of(raw.model(), false) {
                Some(m) => message matches Some(x) && x.model() == m,
                None => message is None,
            },
    {
        let fields = match raw.as_object() {
            Some(fields) => fields,
            None => {
                return None;
            },
        };
        let literal = match RawValue::optional_text(find_field(fields, "literal")) {
            Some(v) => v,
            None => {
                return None;
            },
        };
        let replace = match RawValue::optional_bool(find_field(fields, "replace")) {
            Some(v) => v,
            None => {
                return None;
            },
        };
        let buttons = match find_field(fields, "buttons") {
            None => None,
            Some(k) => match KeyboardDefinition::from_raw(k) {
                Some(k) => Some(k),
                None => {
                    return None;
                },
            },
        };
        let state = match RawValue::optional_text(find_field(fields, "state")) {
            Some(v) => v,
            None => {
                return None;
            },
        };
        let meta = match RawValue::optional_bool(find_field(fields, "meta")) {
            Some(v) => v,
            None => {
                return None;
            },
        };
        let handler = match find_field(fields, "handler") {
            None => None,
            Some(h) => match BotFunction::from_raw(h) {
                Some(f) => Some(f),
                None => {
                    return None;
                },
            },
        };
        Some(
            BotMessage {
                literal,
                replace: match replace {
                    Some(r) => r,
                    None => false,
                },
                buttons,
                state,
                meta,
                handler,
            },
        )
    }

    /// The message as a mathematical value.
    pub open spec fn model(&self) -> MessageModel<P::Function> {
        MessageModel {
            literal: text_of(self.literal),
            replace: self.replace,
            buttons: match self.buttons {
                Some(k) => Some(k.model()),
                None => None,
            },
            state: text_of(self.state),
            meta: self.meta,
            handler: match self.handler {
                Some(f) => Some(f.model()),
                None => None,
            },
        }
    }

    pub fn duplicate(&self) -> (copy: Self)
        ensures
            copy.model() == self.model(),
    {
        BotMessage {
            literal: match &self.literal {
                Some(l) => Some(l.clone()),
                None => None,
            },
            replace: self.replace,
            buttons: match &self.buttons {
                Some(k) => Some(k.duplicate()),
                None => None,
            },
            state: match &self.state {
                Some(s) => Some(s.clone()),
                None => None,
            },
            meta: self.meta,
            handler: match &self.handler {
                Some(f) => Some(f.duplicate()),
                None => None,
            },
        }
    }

    pub fn fill_literal(self, l: String) -> (filled: Self)
        ensures
            filled.model() == with_literal(self.model(), l@),
    {
        BotMessage {
            literal: match self.literal {
                Some(own) => Some(own),
                None => Some(l),
            },
            replace: self.replace,
            buttons: self.buttons,
            state: self.state,
            meta: self.meta,
            handler: self.handler,
        }
    }

    /// chain of modifications on BotMessage
    pub fn update_defaults(self) -> (updated: Self)
        ensures
            updated.model() == with_defaults(self.model()),
    {
        let bm = self;
        // if message is `start`, defaulting meta to true, if not set
        let is_start = match &bm.literal {
            Some(l) => str_eq(l.as_str(), "start"),
            None => false,
        };
        match bm.meta {
            Some(_) => bm,
            None => if is_start {
                BotMessage {
                    literal: bm.literal,
                    replace: bm.replace,
                    buttons: bm.buttons,
                    state: bm.state,
                    meta: Some(true),
                    handler: bm.handler,
                }
            } else {
                bm
            },
        }
    }

    pub fn is_replace(&self) -> (replace: bool)
        ensures
            replace == self.model().replace,
    {
        self.replace
    }

    pub fn get_handler(&self) -> (handler: Option<&BotFunction<P>>)
        ensures
            match handler {
                Some(f) => self.handler == Some(*f),
                None => self.handler is None,
            },
    {
        self.handler.as_ref()
    }

    /// Whether the command counts as onboarding.
    pub fn meta(&self) -> (meta: bool)
        ensures
            meta == (self.model().meta == Some(true)),
    {
        match self.meta {
            Some(m) => m,
            None => false,
        }
    }

    /// The rows of buttons of the message's keyboard; none for a message
    /// without a keyboard. Callables of the keyboard are called.
    pub fn resolve_buttons(&self) -> (rows: ConfigResult<Option<Vec<Vec<ButtonRaw>>>>) where
        P::Function: ProviderCall<P>,
        P::Value: ProviderDeserialize<P>,
        P::Error: ProviderError,

        ensures
            match self.model().buttons {
                None => rows matches Ok(None),
                Some(keyboard) => {
                    &&& !(rows matches Ok(None))
                    &&& keyboard_settled(keyboard) ==> match rows {
                        Ok(Some(layout)) => is_settled_keyboard(
                            Ok(layout),
                            settled_keyboard(keyboard),
                        ),
                        Ok(None) => false,
                        Err(e) => is_settled_keyboard(Err(e), settled_keyboard(keyboard)),
                    }
                },
            },
    {
        match &self.buttons {
            Some(keyboard) => match keyboard.duplicate().resolve_keyboard() {
                Ok(rows) => Ok(Some(rows)),
                Err(e) => Err(e),
            },
            None => Ok(None),
        }
    }

    pub fn literal(&self) -> (literal: Option<&String>)
        ensures
            match literal {
                Some(l) => self.literal == Some(*l),
                None => self.literal is None,
            },
    {
        self.literal.as_ref()
    }

    /// The name of the state that the dialog goes to.
    pub fn state(&self) -> (state: Option<&String>)
        ensures
            match state {
                Some(s) => self.state == Some(*s),
                None => self.state is None,
            },
    {
        self.state.as_ref()
    }
}

impl<P: Provider> Parcelable<P::Function> for BotMessage<P> {
    type Model = MessageModel<P::Function>;

    open spec fn parcel_model(&self) -> MessageModel<P::Function> {
        self.model()
    }

    /// A message resolves its fields by their names.
    open spec fn attached(
        model: MessageModel<P::Function>,
        path: Option<Seq<char>>,
        function: P::Function,
    ) -> Result<MessageModel<P::Function>, ParcelFault> {
        match path {
            None => Err(ParcelFault::Resolve),
            Some(p) => {
                let name = head_of(p);
                let rest = tail_of(p);
                if name == "literal"@ {
                    match <Option<String> as Parcelable<P::Function>>::attached(
                        model.literal,
                        rest,
                        function,
                    ) {
                        Ok(literal) => Ok(MessageModel { literal, ..model }),
                        Err(fault) => Err(fault),
                    }
                } else if name == "replace"@ {
                    match <bool as Parcelable<P::Function>>::attached(
                        model.replace,
                        rest,
                        function,
                    ) {
                        Ok(replace) => Ok(MessageModel { replace, ..model }),
                        Err(fault) => Err(fault),
                    }
                } else if name == "buttons"@ {
                    match <Option<KeyboardDefinition<P>> as Parcelable<P::Function>>::attached(
                        model.buttons,
                        rest,
                        function,
                    ) {
                        Ok(buttons) => Ok(MessageModel { buttons, ..model }),
                        Err(fault) => Err(fault),
                    }
                } else if name == "state"@ {
                    match <Option<String> as Parcelable<P::Function>>::attached(
                        model.state,
                        rest,
                        function,
                    ) {
                        Ok(state) => Ok(MessageModel { state, ..model }),
                        Err(fault) => Err(fault),
                    }
                } else if name == "meta"@ {
                    match <Option<bool> as Parcelable<P::Function>>::attached(
                        model.meta,
                        rest,
                        function,
                    ) {
                        Ok(meta) => Ok(MessageModel { meta, ..model }),
                        Err(fault) => Err(fault),
                    }
                } else if name == "handler"@ {
                    match <Option<BotFunction<P>> as Parcelable<P::Function>>::attached(
                        model.handler,
                        rest,
                        function,
                    ) {
                        Ok(handler) => Ok(MessageModel { handler, ..model }),
                        Err(fault) => Err(fault),
                    }
                } else {
                    Err(ParcelFault::Field)
                }
            },
        }
    }

    open spec fn kind_of(model: MessageModel<P::Function>) -> ParcelType {
        ParcelType::Parcelable
    }

    proof fn lemma_slot(model: MessageModel<P::Function>, function: P::Function) {
    }

    fn resolve(&self) -> (kind: ParcelType) {
        ParcelType::Parcelable
    }

    fn attach(&mut self, path: Option<&str>, function: Arc<P::Function>) -> (done:
        ParcelableResult<()>) {
        let path = match path {
            Some(path) => path,
            None => {
                return Err(ParcelableError::not_a_slot());
            },
        };
        let (name, rest) = split_path(path);
        if str_eq(name, "literal") {
            self.literal.attach(rest, function)
        } else if str_eq(name, "replace") {
            self.replace.attach(rest, function)
        } else if str_eq(name, "buttons") {
            self.buttons.attach(rest, function)
        } else if str_eq(name, "state") {
            self.state.attach(rest, function)
        } else if str_eq(name, "meta") {
            self.meta.attach(rest, function)
        } else if str_eq(name, "handler") {
            self.handler.attach(rest, function)
        } else {
            Err(ParcelableError::no_field(name))
        }
    }
}

} // verus!
