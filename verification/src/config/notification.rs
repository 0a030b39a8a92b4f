//! The rules of scheduled notifications: who gets them, and what they say.

pub mod batch;

use std::sync::Arc;

use vstd::prelude::*;

use crate::clock::{whole_seconds, whole_seconds_between, Timestamp};
use crate::config::dialog::button::{wrong_data, wrong_data_text};
use crate::config::function::{not_attached_text, slot_of, BotFunction, SlotModel};
use crate::config::result::{ConfigError, ConfigResult};
use crate::config::time::{time_of, NotificationTime};
use crate::config::traits::provider::{
    Provider, ProviderCall, ProviderDeserialize, ProviderError, ProviderSerialize,
};
use crate::db::User;
use crate::config::value::{
    find_field, given_field, int_in, items_model, model_in, RawModel, RawValue,
};
use crate::text::str_eq;
use crate::utils::parcelable::{
    head_of, leaf_fault, split_path, tail_of, ParcelFault, ParcelType, Parcelable, ParcelableError,
    ParcelableResult,
};

verus! {

/// One rule of scheduled notifications: when it fires, who gets it, and
/// what is sent.
pub struct BotNotification<P: Provider> {
    pub time: NotificationTime,
    pub filter: NotificationFilter<P>,
    pub message: NotificationMessage<P>,
}

/// Who gets a notification.
pub enum NotificationFilter<P: Provider> {
    /// Every user.
    All,
    /// Send to randomly selected N people
    Random { random: u32 },
    /// Function that returns list of user id's who should get notification
    BotFunction(BotFunction<P>),
}

/// What a notification says.
pub enum NotificationMessage<P: Provider> {
    /// The text that the store holds under a literal key.
    Literal { literal: String },
    /// The text itself.
    Text { text: String },
    /// Function can accept user which will be notified and then return generated message
    BotFunction(BotFunction<P>),
}

/// The users that the store is asked for.
#[derive(Debug)]
pub enum Recipients {
    /// Every user.
    All,
    /// That many users, picked at random.
    Random(u32),
    /// The users with these ids.
    Ids(Vec<i64>),
}

/// Where the text of a notification comes from.
#[derive(Debug)]
pub enum MessageSource {
    /// The store holds the text under this literal key.
    Literal(String),
    /// The text itself; none where the recipient gets no message.
    Text(Option<String>),
}

/// The ids that a list of whole numbers holds; none for data that is
/// anything else.
pub open spec fn ids_of<F>(data: RawModel<F>) -> Option<Seq<i64>> {
    match data {
        RawModel::List(items) => if forall|i: int|
            0 <= i < items.len() ==> (#[trigger] items[i]) is Int {
            Some(Seq::new(items.len(), |i: int| items[i]->Int_0))
        } else {
            None
        },
        _ => None,
    }
}

/// The text that data stands for: a text, or `Null` for no text; none for
/// data that is anything else.
pub open spec fn text_or_none_of<F>(data: RawModel<F>) -> Option<Option<Seq<char>>> {
    match data {
        RawModel::Text(text) => Some(Some(text)),
        RawModel::Null => Some(None),
        _ => None,
    }
}

/// The mathematical form of a `NotificationFilter`.
pub enum FilterModel<F> {
    All,
    Random { random: u32 },
    BotFunction(SlotModel<F>),
}

/// The mathematical form of a `NotificationMessage`.
pub enum NoteMessageModel<F> {
    Literal { literal: Seq<char> },
    Text { text: Seq<char> },
    BotFunction(SlotModel<F>),
}

/// The mathematical form of a `BotNotification`.
pub struct NotificationModel<F> {
    pub time: NotificationTime,
    pub filter: FilterModel<F>,
    pub message: NoteMessageModel<F>,
}

/// The models of a list of rules.
pub open spec fn notification_models<P: Provider>(rules: Seq<BotNotification<P>>) -> Seq<
    NotificationModel<P::Function>,
> {
    Seq::new(rules.len(), |i: int| rules[i].model())
}

/// Who gets a notification, as a script writes it: nothing or the text
/// `all` for every user, an object with the number `random` for that many
/// users picked at random, or a callable.
pub open spec fn filter_in<F>(field: Option<RawModel<F>>, live: bool) -> Option<FilterModel<F>> {
    match field {
        None => Some(FilterModel::All),
        Some(RawModel::Text(text)) => if text == "all"@ {
            Some(FilterModel::All)
        } else {
            None
        },
        Some(RawModel::Object(fields)) => match int_in(
            given_field(fields, "random"@),
            0,
            0xffff_ffff,
        ) {
            Some(Some(random)) => Some(FilterModel::Random { random: random as u32 }),
            _ => None,
        },
        Some(raw) => match slot_of(raw, live) {
            Some(slot) => Some(FilterModel::BotFunction(slot)),
            None => None,
        },
    }
}

/// What a notification says, as a script writes it: an object with the key
/// of a literal under `literal` or with the text under `text`, or a
/// callable.
pub open spec fn note_message_of<F>(raw: RawModel<F>, live: bool) -> Option<NoteMessageModel<F>> {
    match raw {
        RawModel::Object(fields) => match given_field(fields, "literal"@) {
            Some(RawModel::Text(literal)) => Some(NoteMessageModel::Literal { literal }),
            _ => match given_field(fields, "text"@) {
                Some(RawModel::Text(text)) => Some(NoteMessageModel::Text { text }),
                _ => None,
            },
        },
        _ => match slot_of(raw, live) {
            Some(slot) => Some(NoteMessageModel::BotFunction(slot)),
            None => None,
        },
    }
}

/// A rule as a script writes it: an object with `time`, the optional
/// `filter`, and `message`.
pub open spec fn notification_of<F>(raw: RawModel<F>, live: bool) -> Option<NotificationModel<F>> {
    match raw {
        RawModel::Object(fields) => match (
            given_field(fields, "time"@),
            filter_in(given_field(fields, "filter"@), live),
            given_field(fields, "message"@),
        ) {
            (Some(time), Some(filter), Some(message)) => match (
                time_of(time),
                note_message_of(message, live),
            ) {
                (Some(time), Some(message)) => Some(NotificationModel { time, filter, message }),
                _ => None,
            },
            _ => None,
        },
        _ => None,
    }
}

/// The rules as a script writes them: a list of rules; no rules where the
/// list is missing.
pub open spec fn notifications_in<F>(field: Option<RawModel<F>>, live: bool) -> Option<
    Seq<NotificationModel<F>>,
> {
    match field {
        None => Some(Seq::empty()),
        Some(RawModel::List(items)) => if forall|i: int|
            0 <= i < items.len() ==> notification_of(#[trigger] items[i], live) is Some {
            Some(Seq::new(items.len(), |i: int| notification_of(items[i], live)->0))
        } else {
            None
        },
        Some(_) => None,
    }
}

impl<P: Provider> NotificationFilter<P> {
    /// The filter as a mathematical value.
    pub open spec fn model(&self) -> FilterModel<P::Function> {
        match self {
            NotificationFilter::All => FilterModel::All,
            NotificationFilter::Random { random } => FilterModel::Random { random: *random },
            NotificationFilter::BotFunction(f) => FilterModel::BotFunction(f.model()),
        }
    }

    /// Reads a filter from a value of a script, which may be missing.
    pub fn from_raw(field: Option<&RawValue<P::Function>>) -> (filter: Option<Self>)
        ensures
            match filter_in(model_in(field), false) {
                Some(m) => filter matches Some(f) && f.model() == m,
                None => filter is None,
            },
    {
        match field {
            None => Some(NotificationFilter::All),
            Some(RawValue::Text(text)) => if str_eq(text.as_str(), "all") {
                Some(NotificationFilter::All)
            } else {
                None
            },
            Some(RawValue::Object(_)) => {
                let raw = match field {
                    Some(raw) => raw,
                    None => {
                        return None;
                    },
                };
                let fields = match raw.as_object() {
                    Some(fields) => fields,
                    None => {
                        return None;
                    },
                };
                match RawValue::optional_int(find_field(fields, "random"), 0, 0xffff_ffff) {
                    Some(Some(random)) => Some(NotificationFilter::Random { random: random as u32 }),
                    _ => None,
                }
            },
            Some(raw) => match BotFunction::from_raw(raw) {
                Some(f) => Some(NotificationFilter::BotFunction(f)),
                None => None,
            },
        }
    }
}

impl<P: Provider> NotificationFilter<P> {
    /// The ids of users that a callable gave as plain data: data that is no
    /// list of whole numbers is an error.
    pub fn ids_returned(data: &RawValue<P::Function>) -> (ids: ConfigResult<Vec<i64>>)
        ensures
            match ids_of(data.model()) {
                Some(m) => ids matches Ok(v) && v@ == m,
                None => ids matches Err(ConfigError::ProviderError(msg)) && msg@
                    == wrong_data_text(),
            },
    {
        let items = match data.as_list() {
            Some(items) => items,
            None => {
                return Err(wrong_data());
            },
        };
        let ghost models = items_model(items@);
        let mut ids: Vec<i64> = Vec::new();
        let mut i: usize = 0;
        while i < items.len()
            invariant
                i <= items@.len(),
                data.model() == RawModel::List(models),
                models == items_model(items@),
                ids@.len() == i,
                forall|k: int| 0 <= k < i ==> (#[trigger] models[k]) == RawModel::<P::Function>::Int(ids@[k]),
            decreases items@.len() - i,
        {
            match &items[i] {
                RawValue::Int(id) => {
                    ids.push(*id);
                },
                _ => {
                    proof {
                        assert(!(models[i as int] is Int));
                    }
                    return Err(wrong_data());
                },
            }
            i += 1;
        }
        proof {
            assert(ids@ =~= ids_of(data.model())->0);
        }
        Ok(ids)
    }

    /// The users that get the notification, as the store is to be asked
    /// for them. A filter that is a callable calls the script, which gives
    /// the ids of the users; a callable that was never put back cannot be
    /// called, which is an error.
    pub fn get_users(&self) -> (users: ConfigResult<Recipients>) where
        P::Function: ProviderCall<P>,
        P::Value: ProviderDeserialize<P>,
        P::Error: ProviderError,

        ensures
            match self.model() {
                FilterModel::All => users matches Ok(Recipients::All),
                FilterModel::Random { random } => users matches Ok(Recipients::Random(n)) && n
                    == random,
                FilterModel::BotFunction(SlotModel::Placeholder(path)) => users matches Err(
                    ConfigError::Other(msg),
                ) && msg@ == not_attached_text(path),
                FilterModel::BotFunction(SlotModel::Live(_)) => users matches Ok(
                    Recipients::Ids(_),
                ) || users is Err,
            },
    {
        match self {
            NotificationFilter::All => Ok(Recipients::All),
            NotificationFilter::Random { random } => Ok(Recipients::Random(*random)),
            NotificationFilter::BotFunction(f) => {
                let data = match BotFunction::<P>::returned(f.call()) {
                    Ok(data) => data,
                    Err(e) => {
                        return Err(e);
                    },
                };
                match Self::ids_returned(&data) {
                    Ok(ids) => Ok(Recipients::Ids(ids)),
                    Err(e) => Err(e),
                }
            },
        }
    }
}

impl<P: Provider> NotificationMessage<P> {
    /// The text that a callable gave as plain data: a text, or `Null` for
    /// no message; anything else is an error.
    pub fn text_returned(data: &RawValue<P::Function>) -> (text: ConfigResult<Option<String>>)
        ensures
            match text_or_none_of(data.model()) {
                Some(Some(m)) => text matches Ok(Some(t)) && t@ == m,
                Some(None) => text matches Ok(None),
                None => text matches Err(ConfigError::ProviderError(msg)) && msg@
                    == wrong_data_text(),
            },
    {
        match data {
            RawValue::Text(text) => Ok(Some(text.clone())),
            RawValue::Null => Ok(None),
            _ => Err(wrong_data()),
        }
    }

    /// What the callable of a message gave, for the answer `answer` of its
    /// call: an answer without a value is no message.
    pub fn text_answered(answer: ConfigResult<Option<P::Value>>) -> (text: ConfigResult<
        Option<String>,
    >) where P::Value: ProviderDeserialize<P>, P::Error: ProviderError
        ensures
            match answer {
                Err(e) => text == Err::<Option<String>, ConfigError>(e),
                Ok(None) => text matches Ok(None),
                Ok(Some(_)) => text is Ok || text matches Err(ConfigError::ProviderError(_)),
            },
    {
        match answer {
            Err(e) => Err(e),
            Ok(None) => Ok(None),
            Ok(Some(value)) => match value.de_into() {
                Ok(data) => Self::text_returned(&data),
                Err(err) => Err(ConfigError::as_provider_err(&err)),
            },
        }
    }

    /// Where the text for the recipient `user` comes from. A message that
    /// is a callable calls the script with the recipient, and takes the
    /// text that the script gives; the script may give no text.
    pub fn resolve(&self, user: &User) -> (source: ConfigResult<MessageSource>) where
        P::Function: ProviderCall<P>,
        P::Value: ProviderDeserialize<P> + ProviderSerialize<P>,
        P::Error: ProviderError,

        ensures
            match self.model() {
                NoteMessageModel::Literal { literal } => source matches Ok(
                    MessageSource::Literal(key),
                ) && key@ == literal,
                NoteMessageModel::Text { text } => source matches Ok(
                    MessageSource::Text(Some(t)),
                ) && t@ == text,
                NoteMessageModel::BotFunction(_) => source matches Ok(MessageSource::Text(_))
                    || source is Err,
            },
    {
        match self {
            NotificationMessage::Literal { literal } => Ok(MessageSource::Literal(literal.clone())),
            NotificationMessage::Text { text } => Ok(MessageSource::Text(Some(text.clone()))),
            NotificationMessage::BotFunction(f) => {
                let data: RawValue<P::Function> = user.to_raw();
                let puser = match <P::Value as ProviderSerialize<P>>::se_from(&data) {
                    Ok(puser) => puser,
                    Err(err) => {
                        return Err(ConfigError::as_provider_err(&err));
                    },
                };
                let mut args: Vec<&P::Value> = Vec::new();
                args.push(&puser);
                match Self::text_answered(f.call_args(args.as_slice())) {
                    Ok(text) => Ok(MessageSource::Text(text)),
                    Err(e) => Err(e),
                }
            },
        }
    }
}

impl<P: Provider> NotificationMessage<P> {
    /// The message as a mathematical value.
    pub open spec fn model(&self) -> NoteMessageModel<P::Function> {
        match self {
            NotificationMessage::Literal { literal } => NoteMessageModel::Literal {
                literal: literal@,
            },
            NotificationMessage::Text { text } => NoteMessageModel::Text { text: text@ },
            NotificationMessage::BotFunction(f) => NoteMessageModel::BotFunction(f.model()),
        }
    }

    /// Reads what a notification says from a value of a script.
    pub fn from_raw(raw: &RawValue<P::Function>) -> (message: Option<Self>)
        ensures
            match note_message_of(raw.model(), false) {
                Some(m) => message matches Some(x) && x.model() == m,
                None => message is None,
            },
    {
        match raw.as_object() {
            Some(fields) => match find_field(fields, "literal") {
                Some(RawValue::Text(literal)) => Some(
                    NotificationMessage::Literal { literal: literal.clone() },
                ),
                _ => match find_field(fields, "text") {
                    Some(RawValue::Text(text)) => Some(
                        NotificationMessage::Text { text: text.clone() },
                    ),
                    _ => None,
                },
            },
            None => match BotFunction::from_raw(raw) {
                Some(f) => Some(NotificationMessage::BotFunction(f)),
                None => None,
            },
        }
    }
}

/// Reads the rules from a value of a script, which may be missing.
pub fn notifications_from_raw<P: Provider>(field: Option<&RawValue<P::Function>>) -> (rules: Option<
    Vec<BotNotification<P>>,
>)
    ensures
        match notifications_in(model_in(field), false) {
            Some(m) => rules matches Some(r) && notification_models(r@) == m,
            None => rules is None,
        },
{
    let raw = match field {
        None => {
            let rules: Vec<BotNotification<P>> = Vec::new();
            proof {
                assert(notification_models(rules@) =~= Seq::empty());
            }
            return Some(rules);
        },
        Some(raw) => raw,
    };
    let items = match raw.as_list() {
        Some(items) => items,
        None => {
            return None;
        },
    };
    let ghost models = items_model(items@);
    let mut rules: Vec<BotNotification<P>> = Vec::new();
    let mut i: usize = 0;
    while i < items.len()
        invariant
            i <= items@.len(),
            model_in(field) == Some(RawModel::List(models)),
            models == items_model(items@),
            rules@.len() == i,
            forall|k: int|
                0 <= k < i ==> notification_of(#[trigger] models[k], false) == Some(rules@[k].model()),
        decreases items@.len() - i,
    {
        match BotNotification::from_raw(&items[i]) {
            Some(rule) => {
                rules.push(rule);
            },
            None => {
                proof {
                    assert(notification_of(models[i as int], false) is None);
                }
                return None;
            },
        }
        i += 1;
    }
    proof {
        assert(notification_models(rules@) =~= notifications_in(model_in(field), false)->0);
    }
    Some(rules)
}

/// The time that is left until a rule fires, seen from `now`, in whole
/// seconds: never less than nothing.
pub open spec fn spec_left_time(
    time: NotificationTime,
    start_time: Timestamp,
    now: Timestamp,
) -> int {
    let next = time.spec_when_next(start_time, now);
    let left = whole_seconds(next.as_nanos() - now.as_nanos());
    if left < 0 {
        0
    } else {
        left
    }
}

impl<P: Provider> BotNotification<P> {
    /// The rule as a mathematical value.
    pub open spec fn model(&self) -> NotificationModel<P::Function> {
        NotificationModel {
            time: self.time,
            filter: self.filter.model(),
            message: self.message.model(),
        }
    }

    /// Reads a rule from a value of a script.
    pub fn from_raw(raw: &RawValue<P::Function>) -> (rule: Option<Self>)
        ensures
            match notification_of(raw.model(), false) {
                Some(m) => rule matches Some(r) && r.model() == m,
                None => rule is None,
            },
    {
        let fields = match raw.as_object() {
            Some(fields) => fields,
            None => {
                return None;
            },
        };
        let time = match find_field(fields, "time") {
            Some(time) => time,
            None => {
                return None;
            },
        };
        let filter = match NotificationFilter::from_raw(find_field(fields, "filter")) {
            Some(filter) => filter,
            None => {
                return None;
            },
        };
        let message = match find_field(fields, "message") {
            Some(message) => message,
            None => {
                return None;
            },
        };
        match (NotificationTime::from_raw(time), NotificationMessage::from_raw(message)) {
            (Some(time), Some(message)) => Some(BotNotification { time, filter, message }),
            _ => None,
        }
    }

    /// The users that get the notification.
    pub fn get_users(&self) -> (users: ConfigResult<Recipients>) where
        P::Function: ProviderCall<P>,
        P::Value: ProviderDeserialize<P>,
        P::Error: ProviderError,

        ensures
            match self.filter.model() {
                FilterModel::All => users matches Ok(Recipients::All),
                FilterModel::Random { random } => users matches Ok(Recipients::Random(n)) && n
                    == random,
                FilterModel::BotFunction(SlotModel::Placeholder(path)) => users matches Err(
                    ConfigError::Other(msg),
                ) && msg@ == not_attached_text(path),
                FilterModel::BotFunction(SlotModel::Live(_)) => users matches Ok(
                    Recipients::Ids(_),
                ) || users is Err,
            },
    {
        self.filter.get_users()
    }

    /// Where the text for the recipient `user` comes from.
    pub fn resolve_message(&self, user: &User) -> (source: ConfigResult<MessageSource>) where
        P::Function: ProviderCall<P>,
        P::Value: ProviderDeserialize<P> + ProviderSerialize<P>,
        P::Error: ProviderError,

        ensures
            match self.message.model() {
                NoteMessageModel::Literal { literal } => source matches Ok(
                    MessageSource::Literal(key),
                ) && key@ == literal,
                NoteMessageModel::Text { text } => source matches Ok(
                    MessageSource::Text(Some(t)),
                ) && t@ == text,
                NoteMessageModel::BotFunction(_) => source matches Ok(MessageSource::Text(_))
                    || source is Err,
            },
    {
        self.message.resolve(user)
    }

    pub fn new(
        time: NotificationTime,
        filter: NotificationFilter<P>,
        message: NotificationMessage<P>,
    ) -> (rule: Self)
        ensures
            rule.time == time,
            rule.filter == filter,
            rule.message == message,
    {
        BotNotification { time, filter, message }
    }

    /// The time until the rule fires next, in whole seconds; parts of a
    /// second are dropped, and a time that has passed counts as no time.
    pub fn left_time(&self, start_time: Timestamp, now: Timestamp) -> (left: u64)
        requires
            start_time.wf(),
            now.wf(),
            self.time.next_fits(now),
        ensures
            left == spec_left_time(self.time, start_time, now),
    {
        let next = self.time.when_next(start_time, now);
        // immediate notification if time to do it passed
        let secs = whole_seconds_between(now, next);
        if secs < 0 {
            0
        } else {
            secs as u64
        }
    }
}

impl<P: Provider> Parcelable<P::Function> for NotificationFilter<P> {
    type Model = FilterModel<P::Function>;

    open spec fn parcel_model(&self) -> FilterModel<P::Function> {
        self.model()
    }

    /// A filter that is written out is a leaf; a filter that is a callable
    /// is its slot.
    open spec fn attached(
        model: FilterModel<P::Function>,
        path: Option<Seq<char>>,
        function: P::Function,
    ) -> Result<FilterModel<P::Function>, ParcelFault> {
        match model {
            FilterModel::BotFunction(slot) => match <BotFunction<P> as Parcelable<
                P::Function,
            >>::attached(slot, path, function) {
                Ok(m) => Ok(FilterModel::BotFunction(m)),
                Err(fault) => Err(fault),
            },
            _ => Err(leaf_fault(path)),
        }
    }

    open spec fn kind_of(model: FilterModel<P::Function>) -> ParcelType {
        match model {
            FilterModel::BotFunction(_) => ParcelType::Function,
            _ => ParcelType::Other,
        }
    }

    proof fn lemma_slot(model: FilterModel<P::Function>, function: 
                P::Function,
            ) {
    }

    fn resolve(&self) -> (kind: ParcelType) {
        match self {
            NotificationFilter::BotFunction(_) => ParcelType::Function,
            _ => ParcelType::Other,
        }
    }

    fn attach(&mut self, path: Option<&str>, function: Arc<P::Function>) -> (done:
        ParcelableResult<()>) {
        match self {
            NotificationFilter::BotFunction(f) => f.attach(path, function),
            _ => Err(ParcelableError::at_leaf(path)),
        }
    }
}

impl<P: Provider> Parcelable<P::Function> for NotificationMessage<P> {
    type Model = NoteMessageModel<P::Function>;

    open spec fn parcel_model(&self) -> NoteMessageModel<P::Function> {
        self.model()
    }

    /// A message that is written out is a leaf; a message that is a
    /// callable is its slot.
    open spec fn attached(
        model: NoteMessageModel<P::Function>,
        path: Option<Seq<char>>,
        function: P::Function,
    ) -> Result<NoteMessageModel<P::Function>, ParcelFault> {
        match model {
            NoteMessageModel::BotFunction(slot) => match <BotFunction<P> as Parcelable<
                P::Function,
            >>::attached(slot, path, function) {
                Ok(m) => Ok(NoteMessageModel::BotFunction(m)),
                Err(fault) => Err(fault),
            },
            _ => Err(leaf_fault(path)),
        }
    }

    open spec fn kind_of(model: NoteMessageModel<P::Function>) -> ParcelType {
        match model {
            NoteMessageModel::BotFunction(_) => ParcelType::Function,
            _ => ParcelType::Other,
        }
    }

    proof fn lemma_slot(model: NoteMessageModel<P::Function>, function: 
                P::Function,
            ) {
    }

    fn resolve(&self) -> (kind: ParcelType) {
        match self {
            NotificationMessage::BotFunction(_) => ParcelType::Function,
            _ => ParcelType::Other,
        }
    }

    fn attach(&mut self, path: Option<&str>, function: Arc<P::Function>) -> (done:
        ParcelableResult<()>) {
        match self {
            NotificationMessage::BotFunction(f) => f.attach(path, function),
            _ => Err(ParcelableError::at_leaf(path)),
        }
    }
}

impl<P: Provider> Parcelable<P::Function> for BotNotification<P> {
    type Model = NotificationModel<P::Function>;

    open spec fn parcel_model(&self) -> NotificationModel<P::Function> {
        self.model()
    }

    /// A rule resolves its fields by their names; its time is a leaf.
    open spec fn attached(
        model: NotificationModel<P::Function>,
        path: Option<Seq<char>>,
        function: P::Function,
    ) -> Result<NotificationModel<P::Function>, ParcelFault> {
        match path {
            None => Err(ParcelFault::Resolve),
            Some(p) => {
                let name = head_of(p);
                let rest = tail_of(p);
                if name == "time"@ {
                    Err(leaf_fault(rest))
                } else if name == "filter"@ {
                    match <NotificationFilter<P> as Parcelable<P::Function>>::attached(
                        model.filter,
                        rest,
                        function,
                    ) {
                        Ok(filter) => Ok(NotificationModel { filter, ..model }),
                        Err(fault) => Err(fault),
                    }
                } else if name == "message"@ {
                    match <NotificationMessage<P> as Parcelable<P::Function>>::attached(
                        model.message,
                        rest,
                        function,
                    ) {
                        Ok(message) => Ok(NotificationModel { message, ..model }),
                        Err(fault) => Err(fault),
                    }
                } else {
                    Err(ParcelFault::Field)
                }
            },
        }
    }

    open spec fn kind_of(model: NotificationModel<P::Function>) -> ParcelType {
        ParcelType::Parcelable
    }

    proof fn lemma_slot(model: NotificationModel<P::Function>, function: P::Function) {
    }

    fn resolve(&self) -> (kind: ParcelType) {
        ParcelType::Parcelable
    }

    fn attach(&mut self, path: Option<&str>, function: Arc<P::Function>) -> (done:
        ParcelableResult<()>) {
        let path = match path {
            Some(path) => path,
            None => {
                return Err(ParcelableError::not_a_slot());
            },
        };
        let (name, rest) = split_path(path);
        if str_eq(name, "time") {
            Err(ParcelableError::at_leaf(rest))
        } else if str_eq(name, "filter") {
            self.filter.attach(rest, function)
        } else if str_eq(name, "message") {
            self.message.attach(rest, function)
        } else {
            Err(ParcelableError::no_field(name))
        }
    }
}

/// The model of a list of rules is the model that the list has as a node
/// of the configuration.
pub proof fn lemma_notification_models<P: Provider>(rules: Vec<BotNotification<P>>)
    ensures
        rules.parcel_model() == notification_models(rules@),
{
    assert(rules.parcel_model() =~= notification_models(rules@));
}

/// The time left is never negative.
pub proof fn law_left_time_not_negative(
    time: NotificationTime,
    start_time: Timestamp,
    now: Timestamp,
)
    ensures
        spec_left_time(time, start_time, now) >= 0,
{
}

/// For a recurring rule with a period above zero the time left is at most
/// one period from the creation on, and the whole seconds until the
/// creation before it. A recurring rule with the period 0 has no time left.
/// For a rule with a fixed time of day the time left is less than two days.
pub proof fn law_left_time_bounds(time: NotificationTime, start_time: Timestamp, now: Timestamp)
    requires
        start_time.wf(),
        now.wf(),
    ensures
        time is Delta && time.period_seconds() > 0 && !now.spec_lt(&start_time) ==> spec_left_time(
            time,
            start_time,
            now,
        ) <= time.period_seconds(),
        time is Delta && time.period_seconds() > 0 && now.spec_lt(&start_time) ==> spec_left_time(
            time,
            start_time,
            now,
        ) == whole_seconds(start_time.as_nanos() - now.as_nanos()),
        time is Delta && time.period_seconds() == 0 ==> spec_left_time(time, start_time, now) == 0,
        time is Specific ==> spec_left_time(time, start_time, now) < 2 * 86_400,
{
    if time is Delta && time.period_seconds() > 0 {
        crate::config::time::law_delta_next(time, start_time, now);
    }
    if time is Specific {
        crate::config::time::law_specific_next(time->Specific_0, start_time, now);
    }
}

} // verus!
