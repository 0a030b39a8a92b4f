//! The buttons of a keyboard.

use std::sync::Arc;

use vstd::prelude::*;

use crate::config::function::{not_attached_text, slot_of, BotFunction, SlotModel};
use crate::config::result::{ConfigError, ConfigResult};
use crate::config::traits::provider::{
    Provider, ProviderCall, ProviderDeserialize, ProviderError,
};
use crate::config::traits::resolve_value::ResolveValue;
use crate::config::value::{find_field, given_field, RawModel, RawValue};
use crate::utils::parcelable::{
    leaf_fault, ParcelFault, ParcelType, Parcelable, ParcelableError, ParcelableResult,
};

verus! {

/// A button as a script writes it: in full, as a bare literal key, or as a
/// callable that gives one of the two.
pub enum ButtonDefinition<P: Provider> {
    Button(ButtonRaw),
    ButtonLiteral(String),
    Function(BotFunction<P>),
}

/// A button: what it shows, and the name of the callback that it sends.
pub struct ButtonRaw {
    pub name: ButtonName,
    pub callback_name: String,
}

/// What a button shows.
pub enum ButtonName {
    /// The text itself.
    Value { name: String },
    /// The key of a literal, whose text the store holds.
    Literal { literal: String },
}

/// A button ready to be laid out.
pub enum ButtonLayout {
    Callback { name: String, literal: Option<String>, callback: String },
}

/// The mathematical form of a `ButtonName`.
pub enum ButtonNameModel {
    Value { name: Seq<char> },
    Literal { literal: Seq<char> },
}

/// The mathematical form of a `ButtonRaw`.
pub struct ButtonRawModel {
    pub name: ButtonNameModel,
    pub callback_name: Seq<char>,
}

/// The mathematical form of a `ButtonDefinition`.
pub enum ButtonModel<F> {
    Button(ButtonRawModel),
    ButtonLiteral(Seq<char>),
    Function(SlotModel<F>),
}

/// The mathematical form of a `ButtonLayout`.
pub struct ButtonLayoutModel {
    pub name: Seq<char>,
    pub literal: Option<Seq<char>>,
    pub callback: Seq<char>,
}

/// The button that a bare literal key stands for: it shows the literal and
/// sends the key as its callback.
pub open spec fn button_of_literal(literal: Seq<char>) -> ButtonRawModel {
    ButtonRawModel { name: ButtonNameModel::Literal { literal }, callback_name: literal }
}

/// The text of the error for a literal that the store does not hold.
pub open spec fn literal_not_found_text(literal: Seq<char>) -> Seq<char> {
    "not found literal `"@ + literal + "` in DB"@
}

/// The characters of a text that may be missing.
pub open spec fn text_of(text: Option<String>) -> Option<Seq<char>> {
    match text {
        Some(t) => Some(t@),
        None => None,
    }
}

/// What a button shows, as a script writes it: an object with the text
/// under `name`, or with the key of a literal under `literal`.
pub open spec fn button_name_of<F>(raw: RawModel<F>) -> Option<ButtonNameModel> {
    match raw {
        RawModel::Object(fields) => match given_field(fields, "name"@) {
            Some(RawModel::Text(name)) => Some(ButtonNameModel::Value { name }),
            _ => match given_field(fields, "literal"@) {
                Some(RawModel::Text(literal)) => Some(ButtonNameModel::Literal { literal }),
                _ => None,
            },
        },
        _ => None,
    }
}

/// A button in full, as a script writes it: an object with what the button
/// shows under `name` and the name of its callback under `callback_name`.
pub open spec fn button_raw_of<F>(raw: RawModel<F>) -> Option<ButtonRawModel> {
    match raw {
        RawModel::Object(fields) => match (
            given_field(fields, "name"@),
            given_field(fields, "callback_name"@),
        ) {
            (Some(name), Some(RawModel::Text(callback_name))) => match button_name_of(name) {
                Some(name) => Some(ButtonRawModel { name, callback_name }),
                None => None,
            },
            _ => None,
        },
        _ => None,
    }
}

/// A button as a script writes it: a button in full, a text that is the
/// key of a literal, or a callable.
pub open spec fn button_of<F>(raw: RawModel<F>, live: bool) -> Option<ButtonModel<F>> {
    match raw {
        RawModel::Object(_) => match button_raw_of(raw) {
            Some(button) => Some(ButtonModel::Button(button)),
            None => None,
        },
        RawModel::Text(literal) => Some(ButtonModel::ButtonLiteral(literal)),
        _ => match slot_of(raw, live) {
            Some(slot) => Some(ButtonModel::Function(slot)),
            None => None,
        },
    }
}

impl ButtonName {
    /// Reads what a button shows from a value of a script.
    pub fn from_raw<F>(raw: &RawValue<F>) -> (name: Option<Self>)
        ensures
            match button_name_of(raw.model()) {
                Some(m) => name matches Some(n) && n.model() == m,
                None => name is None,
            },
    {
        let fields = match raw.as_object() {
            Some(fields) => fields,
            None => {
                return None;
            },
        };
        match find_field(fields, "name") {
            Some(RawValue::Text(name)) => Some(ButtonName::Value { name: name.clone() }),
            _ => match find_field(fields, "literal") {
                Some(RawValue::Text(literal)) => Some(
                    ButtonName::Literal { literal: literal.clone() },
                ),
                _ => None,
            },
        }
    }

    /// The name as a mathematical value.
    pub open spec fn model(&self) -> ButtonNameModel {
        match self {
            ButtonName::Value { name } => ButtonNameModel::Value { name: name@ },
            ButtonName::Literal { literal } => ButtonNameModel::Literal { literal: literal@ },
        }
    }

    pub fn duplicate(&self) -> (copy: Self)
        ensures
            copy.model() == self.model(),
    {
        match self {
            ButtonName::Value { name } => ButtonName::Value { name: name.clone() },
            ButtonName::Literal { literal } => ButtonName::Literal { literal: literal.clone() },
        }
    }

    /// The key of the literal that the store has to be asked for; none for
    /// a name that is the text itself.
    pub fn literal_key(&self) -> (key: Option<&str>)
        ensures
            match self.model() {
                ButtonNameModel::Value { .. } => key is None,
                ButtonNameModel::Literal { literal } => key matches Some(k) && k@ == literal,
            },
    {
        match self {
            ButtonName::Value { .. } => None,
            ButtonName::Literal { literal } => Some(literal.as_str()),
        }
    }

    /// The text that the button shows. `stored` is what the store holds
    /// under the key of the literal: a literal that the store does not hold
    /// is an error.
    pub fn resolve_name(self, stored: Option<String>) -> (text: ConfigResult<String>)
        ensures
            match self.model() {
                ButtonNameModel::Value { name } => text matches Ok(t) && t@ == name,
                ButtonNameModel::Literal { literal } => match stored {
                    Some(value) => text matches Ok(t) && t@ == value@,
                    None => text matches Err(ConfigError::Other(msg)) && msg@
                        == literal_not_found_text(literal),
                },
            },
    {
        match self {
            ButtonName::Value { name } => Ok(name),
            ButtonName::Literal { literal } => match stored {
                Some(value) => Ok(value),
                None => {
                    let msg = "not found literal `".to_owned().concat(literal.as_str()).concat(
                        "` in DB",
                    );
                    Err(ConfigError::Other(msg))
                },
            },
        }
    }
}

impl ButtonRaw {
    /// Reads a button in full from a value of a script.
    pub fn from_raw<F>(raw: &RawValue<F>) -> (button: Option<Self>)
        ensures
            match button_raw_of(raw.model()) {
                Some(m) => button matches Some(b) && b.model() == m,
                None => button is None,
            },
    {
        let fields = match raw.as_object() {
            Some(fields) => fields,
            None => {
                return None;
            },
        };
        match (find_field(fields, "name"), find_field(fields, "callback_name")) {
            (Some(name), Some(RawValue::Text(callback_name))) => match ButtonName::from_raw(name) {
                Some(name) => Some(ButtonRaw { name, callback_name: callback_name.clone() }),
                None => None,
            },
            _ => None,
        }
    }

    /// The button as a mathematical value.
    pub open spec fn model(&self) -> ButtonRawModel {
        ButtonRawModel { name: self.name.model(), callback_name: self.callback_name@ }
    }

    pub fn from_literal(literal: String) -> (button: Self)
        ensures
            button.model() == button_of_literal(literal@),
    {
        ButtonRaw { name: ButtonName::Literal { literal: literal.clone() }, callback_name: literal }
    }

    pub fn name(&self) -> (name: &ButtonName)
        ensures
            *name == self.name,
    {
        &self.name
    }

    pub fn callback_name(&self) -> (callback: &str)
        ensures
            callback@ == self.callback_name@,
    {
        self.callback_name.as_str()
    }

    /// The key of the literal that the button shows; none where it shows a
    /// text of its own.
    pub fn literal(&self) -> (literal: Option<String>)
        ensures
            match self.model().name {
                ButtonNameModel::Value { .. } => literal is None,
                ButtonNameModel::Literal { literal: key } => literal matches Some(l) && l@ == key,
            },
    {
        match self.name() {
            ButtonName::Value { .. } => None,
            ButtonName::Literal { literal } => Some(literal.clone()),
        }
    }

    pub fn duplicate(&self) -> (copy: Self)
        ensures
            copy.model() == self.model(),
    {
        ButtonRaw { name: self.name.duplicate(), callback_name: self.callback_name.clone() }
    }
}

impl ButtonLayout {
    /// The layout as a mathematical value.
    pub open spec fn model(&self) -> ButtonLayoutModel {
        match self {
            ButtonLayout::Callback { name, literal, callback } => ButtonLayoutModel {
                name: name@,
                literal: text_of(*literal),
                callback: callback@,
            },
        }
    }

    /// The layout of a button. `stored` is what the store holds under the
    /// key of the button's literal; it is not looked at for a button that
    /// shows a text of its own.
    pub fn resolve_raw(braw: ButtonRaw, stored: Option<String>) -> (layout: ConfigResult<Self>)
        ensures
            match braw.model().name {
                ButtonNameModel::Value { name } => layout matches Ok(l) && l.model() == (
                ButtonLayoutModel { name, literal: None, callback: braw.model().callback_name }),
                ButtonNameModel::Literal { literal } => match stored {
                    Some(value) => layout matches Ok(l) && l.model() == (ButtonLayoutModel {
                        name: value@,
                        literal: Some(literal),
                        callback: braw.model().callback_name,
                    }),
                    None => layout matches Err(ConfigError::Other(msg)) && msg@
                        == literal_not_found_text(literal),
                },
            },
    {
        let literal = braw.literal();
        let callback = braw.callback_name().to_owned();
        let name = match braw.name.resolve_name(stored) {
            Ok(name) => name,
            Err(e) => {
                return Err(e);
            },
        };
        Ok(ButtonLayout::Callback { name, literal, callback })
    }
}

impl<P: Provider> ButtonDefinition<P> {
    /// Reads a button from a value of a script.
    pub fn from_raw(raw: &RawValue<P::Function>) -> (button: Option<Self>)
        ensures
            match button_of(raw.model(), false) {
                Some(m) => button matches Some(b) && b.model() == m,
                None => button is None,
            },
    {
        match raw {
            RawValue::Object(_) => match ButtonRaw::from_raw(raw) {
                Some(button) => Some(ButtonDefinition::Button(button)),
                None => None,
            },
            RawValue::Text(literal) => Some(ButtonDefinition::ButtonLiteral(literal.clone())),
            _ => match BotFunction::from_raw(raw) {
                Some(f) => Some(ButtonDefinition::Function(f)),
                None => None,
            },
        }
    }

    /// The definition as a mathematical value.
    pub open spec fn model(&self) -> ButtonModel<P::Function> {
        match self {
            ButtonDefinition::Button(button) => ButtonModel::Button(button.model()),
            ButtonDefinition::ButtonLiteral(literal) => ButtonModel::ButtonLiteral(literal@),
            ButtonDefinition::Function(f) => ButtonModel::Function(f.model()),
        }
    }

    pub fn duplicate(&self) -> (copy: Self)
        ensures
            copy.model() == self.model(),
    {
        match self {
            ButtonDefinition::Button(button) => ButtonDefinition::Button(button.duplicate()),
            ButtonDefinition::ButtonLiteral(literal) => ButtonDefinition::ButtonLiteral(
                literal.clone(),
            ),
            ButtonDefinition::Function(f) => ButtonDefinition::Function(f.duplicate()),
        }
    }
}

/// What a button that holds no live callable resolves to: the button
/// itself, the button that its literal stands for, or, for a callable that
/// was never put back, the path of its place.
pub open spec fn settled_button<F>(model: ButtonModel<F>) -> Result<ButtonRawModel, Seq<char>> {
    match model {
        ButtonModel::Button(button) => Ok(button),
        ButtonModel::ButtonLiteral(literal) => Ok(button_of_literal(literal)),
        ButtonModel::Function(SlotModel::Placeholder(path)) => Err(path),
        ButtonModel::Function(SlotModel::Live(_)) => Err(Seq::empty()),
    }
}

/// Whether `outcome` is what the resolution of settled data gives: the
/// value of its model, or the error of a callable that was never put back.
pub open spec fn is_settled_button(
    outcome: ConfigResult<ButtonRaw>,
    settled: Result<ButtonRawModel, Seq<char>>,
) -> bool {
    match settled {
        Ok(m) => outcome matches Ok(b) && b.model() == m,
        Err(path) => outcome matches Err(ConfigError::Other(msg)) && msg@ == not_attached_text(
            path,
        ),
    }
}

/// The text of the error for plain data that is not what a callable had to
/// give.
pub open spec fn wrong_data_text() -> Seq<char> {
    "ProviderError: the function returned data of the wrong shape"@
}

/// The error for plain data that is not what a callable had to give.
pub fn wrong_data() -> (e: ConfigError)
    ensures
        e matches ConfigError::ProviderError(msg) && msg@ == wrong_data_text(),
{
    ConfigError::ProviderError(
        "ProviderError: the function returned data of the wrong shape".to_owned(),
    )
}

/// The error for a callable that was never put back.
pub fn not_attached(path: &str) -> (e: ConfigError)
    ensures
        e matches ConfigError::Other(msg) && msg@ == not_attached_text(path@),
{
    ConfigError::Other("function is not attached: ".to_owned().concat(path))
}

impl<P: Provider> ButtonDefinition<P> {
    /// Whether the definition holds no live callable.
    pub open spec fn is_settled(&self) -> bool {
        !(self.model() matches ButtonModel::Function(SlotModel::Live(_)))
    }

    /// The button that a callable gave as plain data: data that is no button
    /// is an error.
    pub fn resolve_returned(data: &RawValue<P::Function>) -> (button: ConfigResult<ButtonRaw>)
        ensures
            match button_of(data.model(), false) {
                Some(m) => is_settled_button(button, settled_button(m)),
                None => button matches Err(ConfigError::ProviderError(msg)) && msg@
                    == wrong_data_text(),
            },
    {
        match Self::from_raw(data) {
            Some(ButtonDefinition::Button(button)) => Ok(button),
            Some(ButtonDefinition::ButtonLiteral(literal)) => Ok(ButtonRaw::from_literal(literal)),
            Some(ButtonDefinition::Function(f)) => match f.0 {
                crate::config::function::FunctionSlot::Placeholder(path) => Err(
                    not_attached(path.as_str()),
                ),
                crate::config::function::FunctionSlot::Live(_) => Err(wrong_data()),
            },
            None => Err(wrong_data()),
        }
    }

    /// The button that the definition stands for. A definition that is a
    /// callable calls the script, and takes what the script gives as the
    /// button.
    pub fn resolve_button(self) -> (button: ConfigResult<ButtonRaw>) where
        P::Function: ProviderCall<P>,
        P::Value: ProviderDeserialize<P>,
        P::Error: ProviderError,

        ensures
            self.is_settled() ==> is_settled_button(button, settled_button(self.model())),
    {
        match self {
            ButtonDefinition::Button(button) => Ok(button),
            ButtonDefinition::ButtonLiteral(l) => Ok(ButtonRaw::from_literal(l)),
            ButtonDefinition::Function(f) => {
                let data = match BotFunction::<P>::returned(f.call()) {
                    Ok(data) => data,
                    Err(e) => {
                        return Err(e);
                    },
                };
                Self::resolve_returned(&data)
            },
        }
    }
}

impl<P: Provider> ResolveValue for ButtonDefinition<P> where
    P::Function: ProviderCall<P>,
    P::Value: ProviderDeserialize<P>,
    P::Error: ProviderError,
 {
    type Value = ButtonRaw;

    type Runtime = P;

    fn resolve(self) -> (button: ConfigResult<ButtonRaw>)
        ensures
            self.is_settled() ==> is_settled_button(button, settled_button(self.model())),
    {
        self.resolve_button()
    }
}

impl<P: Provider> Parcelable<P::Function> for ButtonDefinition<P> {
    type Model = ButtonModel<P::Function>;

    open spec fn parcel_model(&self) -> ButtonModel<P::Function> {
        self.model()
    }

    /// A button that is written out is a leaf; a button that is a callable
    /// is its slot.
    open spec fn attached(
        model: ButtonModel<P::Function>,
        path: Option<Seq<char>>,
        function: P::Function,
    ) -> Result<ButtonModel<P::Function>, ParcelFault> {
        match model {
            ButtonModel::Function(slot) => match <BotFunction<P> as Parcelable<
                P::Function,
            >>::attached(slot, path, function) {
                Ok(m) => Ok(ButtonModel::Function(m)),
                Err(fault) => Err(fault),
            },
            _ => Err(leaf_fault(path)),
        }
    }

    open spec fn kind_of(model: ButtonModel<P::Function>) -> ParcelType {
        match model {
            ButtonModel::Function(_) => ParcelType::Function,
            _ => ParcelType::Other,
        }
    }

    proof fn lemma_slot(model: ButtonModel<P::Function>, function: 
                P::Function,
            ) {
    }

    fn resolve(&self) -> (kind: ParcelType) {
        match self {
            ButtonDefinition::Function(_) => ParcelType::Function,
            _ => ParcelType::Other,
        }
    }

    fn attach(&mut self, path: Option<&str>, function: Arc<P::Function>) -> (done:
        ParcelableResult<()>) {
        match self {
            ButtonDefinition::Function(f) => f.attach(path, function),
            _ => Err(ParcelableError::at_leaf(path)),
        }
    }
}

} // verus!
