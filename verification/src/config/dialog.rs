//! The dialog of a configuration: the messages by the names of the
//! commands, of the buttons, and of the variants.

pub mod button;
pub mod keyboard;
pub mod message;

use std::sync::Arc;

use vstd::prelude::*;

use crate::config::dialog::message::{message_of, BotMessage, MessageModel};
use crate::config::traits::provider::Provider;
use crate::config::value::{fields_model, find_field, given_field, RawModel, RawValue};
use crate::text::str_eq;
use crate::utils::parcelable::{
    head_of, split_path, tail_of, ParcelFault, ParcelType, Parcelable, ParcelableError,
    ParcelableResult,
};
use crate::utils::table::Table;

verus! {

/// What the bot says, by the name of the command or of the button.
pub struct BotDialog<P: Provider> {
    pub commands: Table<BotMessage<P>>,
    pub buttons: Table<BotMessage<P>>,
    pub stateful_msg_handlers: Table<BotMessage<P>>,
    /// For a command, other messages by the name of a variant.
    pub variants: Table<Table<BotMessage<P>>>,
}

/// The mathematical form of a table of messages: the names and the
/// messages, in the order of the table.
pub type MessagesModel<F> = Seq<(Seq<char>, MessageModel<F>)>;

/// The mathematical form of a `BotDialog`.
pub struct DialogModel<F> {
    pub commands: MessagesModel<F>,
    pub buttons: MessagesModel<F>,
    pub stateful_msg_handlers: MessagesModel<F>,
    pub variants: Seq<(Seq<char>, MessagesModel<F>)>,
}

/// The model of a table of messages.
pub open spec fn messages_model<P: Provider>(table: Table<BotMessage<P>>) -> MessagesModel<
    P::Function,
> {
    Seq::new(table.entries@.len(), |i: int| (table.entries@[i].0@, table.entries@[i].1.model()))
}

/// The model of a table of tables of messages.
pub open spec fn variants_model<P: Provider>(table: Table<Table<BotMessage<P>>>) -> Seq<
    (Seq<char>, MessagesModel<P::Function>),
> {
    Seq::new(
        table.entries@.len(),
        |i: int| (table.entries@[i].0@, messages_model(table.entries@[i].1)),
    )
}

/// No two fields have the same name.
pub open spec fn names_distinct<F>(fields: Seq<(Seq<char>, RawModel<F>)>) -> bool {
    forall|i: int, j: int|
        0 <= i < j < fields.len() ==> (#[trigger] fields[i]).0 != (#[trigger] fields[j]).0
}

/// A table of messages as a script writes it: an object that holds a
/// message under each name, and no name twice.
pub open spec fn messages_of<F>(raw: RawModel<F>, live: bool) -> Option<MessagesModel<F>> {
    match raw {
        RawModel::Object(fields) => if names_distinct(fields) && forall|i: int|
            0 <= i < fields.len() ==> message_of((#[trigger] fields[i]).1, live) is Some {
            Some(Seq::new(fields.len(), |i: int| (fields[i].0, message_of(fields[i].1, live)->0)))
        } else {
            None
        },
        _ => None,
    }
}

/// A table of messages that may be missing: a missing one is empty.
pub open spec fn messages_in<F>(field: Option<RawModel<F>>, live: bool) -> Option<MessagesModel<F>> {
    match field {
        None => Some(Seq::empty()),
        Some(raw) => messages_of(raw, live),
    }
}

/// The variants of the commands as a script writes them: an object that
/// holds a table of messages under the name of each command, and no name
/// twice. Missing variants are empty.
pub open spec fn variants_in<F>(field: Option<RawModel<F>>, live: bool) -> Option<
    Seq<(Seq<char>, MessagesModel<F>)>,
> {
    match field {
        None => Some(Seq::empty()),
        Some(raw) => variants_of(raw, live),
    }
}

/// The variants of the commands, where they are there.
pub open spec fn variants_of<F>(raw: RawModel<F>, live: bool) -> Option<Seq<(Seq<char>, MessagesModel<F>)>> {
    match raw {
        RawModel::Object(fields) => if names_distinct(fields) && forall|i: int|
            0 <= i < fields.len() ==> messages_of((#[trigger] fields[i]).1, live) is Some {
            Some(Seq::new(fields.len(), |i: int| (fields[i].0, messages_of(fields[i].1, live)->0)))
        } else {
            None
        },
        _ => None,
    }
}

/// A dialog as a script writes it: an object with the optional tables
/// `commands`, `buttons`, `stateful_msg_handlers` and `variants`.
pub open spec fn dialog_of<F>(raw: RawModel<F>, live: bool) -> Option<DialogModel<F>> {
    match raw {
        RawModel::Object(fields) => {
            let commands = messages_in(given_field(fields, "commands"@), live);
            let buttons = messages_in(given_field(fields, "buttons"@), live);
            let handlers = messages_in(given_field(fields, "stateful_msg_handlers"@), live);
            let variants = variants_in(given_field(fields, "variants"@), live);
            if commands is Some && buttons is Some && handlers is Some && variants is Some {
                Some(
                    DialogModel {
                        commands: commands->0,
                        buttons: buttons->0,
                        stateful_msg_handlers: handlers->0,
                        variants: variants->0,
                    },
                )
            } else {
                None
            }
        },
        _ => None,
    }
}

/// Reads a table of messages from a value of a script.
pub fn messages_from_raw<P: Provider>(raw: &RawValue<P::Function>) -> (table: Option<
    Table<BotMessage<P>>,
>)
    ensures
        match messages_of(raw.model(), false) {
            Some(m) => table matches Some(t) && t.wf() && messages_model(t) == m,
            None => table is None,
        },
{
    let fields = match raw.as_object() {
        Some(fields) => fields,
        None => {
            return None;
        },
    };
    let ghost models = fields_model(fields@);
    let mut table: Table<BotMessage<P>> = Table::new();
    let mut i: usize = 0;
    while i < fields.len()
        invariant
            i <= fields@.len(),
            raw.model() == RawModel::Object(models),
            models == fields_model(fields@),
            table.wf(),
            table.entries@.len() == i,
            forall|k: int|
                0 <= k < i ==> (#[trigger] table.entries@[k]).0@ == models[k].0 && message_of(
                    models[k].1, false,
                ) == Some(table.entries@[k].1.model()),
        decreases fields@.len() - i,
    {
        let message = match BotMessage::from_raw(&fields[i].1) {
            Some(message) => message,
            None => {
                proof {
                    assert(message_of(models[i as int].1, false) is None);
                }
                return None;
            },
        };
        let ghost before = table.entries@;
        let previous = table.insert(fields[i].0.clone(), message);
        if previous.is_some() {
            proof {
                let k = choose|k: int| 0 <= k < before.len() && (#[trigger] before[k]).0@ == fields@[i as int].0@;
                assert(models[k].0 == models[i as int].0);
            }
            return None;
        }
        i += 1;
    }
    proof {
        assert forall|a: int, b: int| 0 <= a < b < models.len() implies (#[trigger] models[a]).0 != (
        #[trigger] models[b]).0 by {
            assert(table.entries@[a].0@ != table.entries@[b].0@);
        }
        assert forall|k: int| 0 <= k < models.len() implies message_of((#[trigger] models[k]).1, false)
            is Some by {
            assert(table.entries@[k].0@ == models[k].0);
        }
        assert(messages_model(table) =~= messages_of(raw.model(), false)->0);
    }
    Some(table)
}

/// Reads the variants of the commands from a value of a script.
pub fn variants_from_raw<P: Provider>(raw: &RawValue<P::Function>) -> (table: Option<
    Table<Table<BotMessage<P>>>,
>)
    ensures
        match variants_of(raw.model(), false) {
            Some(m) => table matches Some(t) && t.wf() && variants_model(t) == m && forall|i: int|
                0 <= i < t.entries@.len() ==> (#[trigger] t.entries@[i]).1.wf(),
            None => table is None,
        },
{
    let fields = match raw.as_object() {
        Some(fields) => fields,
        None => {
            return None;
        },
    };
    let ghost models = fields_model(fields@);
    let mut table: Table<Table<BotMessage<P>>> = Table::new();
    let mut i: usize = 0;
    while i < fields.len()
        invariant
            i <= fields@.len(),
            raw.model() == RawModel::Object(models),
            models == fields_model(fields@),
            table.wf(),
            table.entries@.len() == i,
            forall|k: int| 0 <= k < i ==> (#[trigger] table.entries@[k]).1.wf(),
            forall|k: int|
                0 <= k < i ==> (#[trigger] table.entries@[k]).0@ == models[k].0 && messages_of(
                    models[k].1, false,
                ) == Some(messages_model(table.entries@[k].1)),
        decreases fields@.len() - i,
    {
        let messages = match messages_from_raw(&fields[i].1) {
            Some(messages) => messages,
            None => {
                proof {
                    assert(messages_of(models[i as int].1, false) is None);
                }
                return None;
            },
        };
        let ghost before = table.entries@;
        let previous = table.insert(fields[i].0.clone(), messages);
        if previous.is_some() {
            proof {
                let k = choose|k: int|
                    0 <= k < before.len() && (#[trigger] before[k]).0@ == fields@[i as int].0@;
                assert(models[k].0 == models[i as int].0);
            }
            return None;
        }
        i += 1;
    }
    proof {
        assert forall|a: int, b: int| 0 <= a < b < models.len() implies (#[trigger] models[a]).0 != (
        #[trigger] models[b]).0 by {
            assert(table.entries@[a].0@ != table.entries@[b].0@);
        }
        assert forall|k: int| 0 <= k < models.len() implies messages_of((#[trigger] models[k]).1, false)
            is Some by {
            assert(table.entries@[k].0@ == models[k].0);
        }
        assert(variants_model(table) =~= variants_of(raw.model(), false)->0);
    }
    Some(table)
}

impl<P: Provider> BotDialog<P> {
    /// The dialog as a mathematical value.
    pub open spec fn model(&self) -> DialogModel<P::Function> {
        DialogModel {
            commands: messages_model(self.commands),
            buttons: messages_model(self.buttons),
            stateful_msg_handlers: messages_model(self.stateful_msg_handlers),
            variants: variants_model(self.variants),
        }
    }

    /// Reads a table of messages that may be missing.
    fn optional_messages(field: Option<&RawValue<P::Function>>) -> (table: Option<
        Table<BotMessage<P>>,
    >)
        ensures
            match messages_in(crate::config::value::model_in(field), false) {
                Some(m) => table matches Some(t) && t.wf() && messages_model(t) == m,
                None => table is None,
            },
    {
        match field {
            None => {
                let table: Table<BotMessage<P>> = Table::new();
                proof {
                    assert(messages_model(table) =~= Seq::empty());
                }
                Some(table)
            },
            Some(raw) => messages_from_raw(raw),
        }
    }

    /// Reads the variants of the commands.
    fn optional_variants(field: Option<&RawValue<P::Function>>) -> (table: Option<
        Table<Table<BotMessage<P>>>,
    >)
        ensures
            match variants_in(crate::config::value::model_in(field), false) {
                Some(m) => table matches Some(t) && t.wf() && variants_model(t) == m && forall|
                    i: int,
                |
                    0 <= i < t.entries@.len() ==> (#[trigger] t.entries@[i]).1.wf(),
                None => table is None,
            },
    {
        match field {
            None => {
                let table: Table<Table<BotMessage<P>>> = Table::new();
                proof {
                    assert(variants_model(table) =~= Seq::empty());
                }
                Some(table)
            },
            Some(raw) => variants_from_raw(raw),
        }
    }

    /// Reads a dialog from a value of a script.
    pub fn from_raw(raw: &RawValue<P::Function>) -> (dialog: Option<Self>)
        ensures
            match dialog_of(raw.model(), false) {
                Some(m) => dialog matches Some(d) && d.wf() && d.model() == m,
                None => dialog is None,
            },
    {
        let fields = match raw.as_object() {
            Some(fields) => fields,
            None => {
                return None;
            },
        };
        let commands = match Self::optional_messages(find_field(fields, "commands")) {
            Some(t) => t,
            None => {
                return None;
            },
        };
        let buttons = match Self::optional_messages(find_field(fields, "buttons")) {
            Some(t) => t,
            None => {
                return None;
            },
        };
        let stateful_msg_handlers = match Self::optional_messages(
            find_field(fields, "stateful_msg_handlers"),
        ) {
            Some(t) => t,
            None => {
                return None;
            },
        };
        let variants = match Self::optional_variants(find_field(fields, "variants")) {
            Some(t) => t,
            None => {
                return None;
            },
        };
        Some(BotDialog { commands, buttons, stateful_msg_handlers, variants })
    }

    /// Every table holds each name once.
    pub open spec fn wf(&self) -> bool {
        &&& self.commands.wf()
        &&& self.buttons.wf()
        &&& self.stateful_msg_handlers.wf()
        &&& self.variants.wf()
        &&& forall|i: int|
            0 <= i < self.variants.entries@.len() ==> (#[trigger] self.variants.entries@[i]).1.wf()
    }
}

/// The names of a table, in the order of the table.
pub open spec fn names_of<M>(entries: Seq<(Seq<char>, M)>) -> Seq<Seq<char>> {
    Seq::new(entries.len(), |i: int| entries[i].0)
}

/// No name occurs twice.
pub open spec fn all_distinct(names: Seq<Seq<char>>) -> bool {
    forall|i: int, j: int| 0 <= i < j < names.len() ==> names[i] != names[j]
}

/// Every table of the dialog holds each name once.
pub open spec fn dialog_model_wf<F>(model: DialogModel<F>) -> bool {
    &&& all_distinct(names_of(model.commands))
    &&& all_distinct(names_of(model.buttons))
    &&& all_distinct(names_of(model.stateful_msg_handlers))
    &&& all_distinct(names_of(model.variants))
    &&& forall|i: int|
        0 <= i < model.variants.len() ==> all_distinct(names_of((#[trigger] model.variants[i]).1))
}

/// A table holds each name once exactly when the names of its model are
/// distinct.
pub proof fn lemma_table_wf<V, M>(table: Table<V>, model: Seq<(Seq<char>, M)>)
    requires
        model.len() == table.entries@.len(),
        forall|i: int| 0 <= i < model.len() ==> (#[trigger] model[i]).0 == table.entries@[i].0@,
    ensures
        table.wf() == all_distinct(names_of(model)),
{
    let names = names_of(model);
    if table.wf() {
        assert forall|i: int, j: int| 0 <= i < j < names.len() implies names[i] != names[j] by {
            assert(model[i].0 == table.entries@[i].0@);
            assert(model[j].0 == table.entries@[j].0@);
        }
    }
    if all_distinct(names) {
        assert forall|i: int, j: int| 0 <= i < j < table.entries@.len() implies (
        #[trigger] table.entries@[i]).0@ != (#[trigger] table.entries@[j]).0@ by {
            assert(names[i] == model[i].0);
            assert(names[j] == model[j].0);
            assert(names[i] != names[j]);
        }
    }
}

/// A dialog is well-formed exactly when its model is.
pub proof fn lemma_dialog_wf<P: Provider>(dialog: BotDialog<P>)
    ensures
        dialog.wf() == dialog_model_wf(dialog.model()),
{
    let model = dialog.model();
    lemma_table_wf(dialog.commands, model.commands);
    lemma_table_wf(dialog.buttons, model.buttons);
    lemma_table_wf(dialog.stateful_msg_handlers, model.stateful_msg_handlers);
    lemma_table_wf(dialog.variants, model.variants);
    assert forall|i: int| 0 <= i < dialog.variants.entries@.len() implies (
    #[trigger] dialog.variants.entries@[i]).1.wf() == all_distinct(names_of(model.variants[i].1)) by {
        lemma_table_wf(dialog.variants.entries@[i].1, model.variants[i].1);
    }
    if dialog.wf() {
        assert forall|i: int| 0 <= i < model.variants.len() implies all_distinct(
            names_of((#[trigger] model.variants[i]).1),
        ) by {
            assert(dialog.variants.entries@[i].1.wf());
        }
    }
    if dialog_model_wf(model) {
        assert forall|i: int| 0 <= i < dialog.variants.entries@.len() implies (
        #[trigger] dialog.variants.entries@[i]).1.wf() by {
            assert(all_distinct(names_of(model.variants[i].1)));
        }
    }
}

/// Putting a callable into a table changes no name of the table.
pub proof fn lemma_table_attached_names<F, V: Parcelable<F>>(
    model: Seq<(Seq<char>, V::Model)>,
    path: Option<Seq<char>>,
    function: F,
)
    ensures
        <Table<V> as Parcelable<F>>::attached(model, path, function) matches Ok(m) ==> names_of(m)
            == names_of(model) && m.len() == model.len(),
{
    match <Table<V> as Parcelable<F>>::attached(model, path, function) {
        Ok(m) => {
            crate::utils::parcelable::lemma_key_position(model, head_of(path->0));
            assert(names_of(m) =~= names_of(model));
        },
        Err(_) => {},
    }
}

/// Putting a callable into a dialog leaves the dialog well-formed.
pub proof fn lemma_dialog_attached_wf<P: Provider>(
    model: DialogModel<P::Function>,
    path: Option<Seq<char>>,
    function: P::Function,
)
    requires
        dialog_model_wf(model),
    ensures
        <BotDialog<P> as Parcelable<P::Function>>::attached(model, path, function) matches Ok(m)
            ==> dialog_model_wf(m),
{
    match <BotDialog<P> as Parcelable<P::Function>>::attached(model, path, function) {
        Ok(m) => {
            let rest = tail_of(path->0);
            lemma_table_attached_names::<P::Function, BotMessage<P>>(
                model.commands,
                rest,
                function,
            );
            lemma_table_attached_names::<P::Function, BotMessage<P>>(model.buttons, rest, function);
            lemma_table_attached_names::<P::Function, BotMessage<P>>(
                model.stateful_msg_handlers,
                rest,
                function,
            );
            lemma_table_attached_names::<P::Function, Table<BotMessage<P>>>(
                model.variants,
                rest,
                function,
            );
            if head_of(path->0) == "variants"@ {
                crate::utils::parcelable::lemma_key_position(model.variants, head_of(rest->0));
                let at = crate::utils::parcelable::key_position(model.variants, head_of(rest->0))->0;
                lemma_table_attached_names::<P::Function, BotMessage<P>>(
                    model.variants[at].1,
                    tail_of(rest->0),
                    function,
                );
                assert forall|i: int| 0 <= i < m.variants.len() implies all_distinct(
                    names_of((#[trigger] m.variants[i]).1),
                ) by {
                    if i != at {
                        assert(m.variants[i] == model.variants[i]);
                    }
                }
            }
        },
        Err(_) => {},
    }
}

/// The model of a table of messages is the model that the table has as a
/// node of the configuration.
pub proof fn lemma_messages_model<P: Provider>(table: Table<BotMessage<P>>)
    ensures
        table.parcel_model() == messages_model(table),
{
    assert(table.parcel_model() =~= messages_model(table));
}

/// The model of the variants is the model that their table has as a node
/// of the configuration.
pub proof fn lemma_variants_model<P: Provider>(table: Table<Table<BotMessage<P>>>)
    ensures
        table.parcel_model() == variants_model(table),
{
    assert forall|i: int| 0 <= i < table.entries@.len() implies table.parcel_model()[i]
        == variants_model(table)[i] by {
        lemma_messages_model(table.entries@[i].1);
    }
    assert(table.parcel_model() =~= variants_model(table));
}

impl<P: Provider> Parcelable<P::Function> for BotDialog<P> {
    type Model = DialogModel<P::Function>;

    open spec fn parcel_model(&self) -> DialogModel<P::Function> {
        self.model()
    }

    /// A dialog resolves its tables by their names.
    open spec fn attached(
        model: DialogModel<P::Function>,
        path: Option<Seq<char>>,
        function: P::Function,
    ) -> Result<DialogModel<P::Function>, ParcelFault> {
        match path {
            None => Err(ParcelFault::Resolve),
            Some(p) => {
                let name = head_of(p);
                let rest = tail_of(p);
                if name == "commands"@ {
                    match <Table<BotMessage<P>> as Parcelable<P::Function>>::attached(
                        model.commands,
                        rest,
                        function,
                    ) {
                        Ok(commands) => Ok(DialogModel { commands, ..model }),
                        Err(fault) => Err(fault),
                    }
                } else if name == "buttons"@ {
                    match <Table<BotMessage<P>> as Parcelable<P::Function>>::attached(
                        model.buttons,
                        rest,
                        function,
                    ) {
                        Ok(buttons) => Ok(DialogModel { buttons, ..model }),
                        Err(fault) => Err(fault),
                    }
                } else if name == "stateful_msg_handlers"@ {
                    match <Table<BotMessage<P>> as Parcelable<P::Function>>::attached(
                        model.stateful_msg_handlers,
                        rest,
                        function,
                    ) {
                        Ok(stateful_msg_handlers) => Ok(
                            DialogModel { stateful_msg_handlers, ..model },
                        ),
                        Err(fault) => Err(fault),
                    }
                } else if name == "variants"@ {
                    match <Table<Table<BotMessage<P>>> as Parcelable<P::Function>>::attached(
                        model.variants,
                        rest,
                        function,
                    ) {
                        Ok(variants) => Ok(DialogModel { variants, ..model }),
                        Err(fault) => Err(fault),
                    }
                } else {
                    Err(ParcelFault::Field)
                }
            },
        }
    }

    open spec fn kind_of(model: DialogModel<P::Function>) -> ParcelType {
        ParcelType::Parcelable
    }

    proof fn lemma_slot(model: DialogModel<P::Function>, function: P::Function) {
    }

    fn resolve(&self) -> (kind: ParcelType) {
        ParcelType::Parcelable
    }

    fn attach(&mut self, path: Option<&str>, function: Arc<P::Function>) -> (done:
        ParcelableResult<()>) {
        let path = match path {
            Some(path) => path,
            None => {
                return Err(ParcelableError::not_a_slot());
            },
        };
        let (name, rest) = split_path(path);
        proof {
            lemma_messages_model(self.commands);
            lemma_messages_model(self.buttons);
            lemma_messages_model(self.stateful_msg_handlers);
            lemma_variants_model(self.variants);
        }
        let done = if str_eq(name, "commands") {
            self.commands.attach(rest, function)
        } else if str_eq(name, "buttons") {
            self.buttons.attach(rest, function)
        } else if str_eq(name, "stateful_msg_handlers") {
            self.stateful_msg_handlers.attach(rest, function)
        } else if str_eq(name, "variants") {
            self.variants.attach(rest, function)
        } else {
            Err(ParcelableError::no_field(name))
        };
        proof {
            lemma_messages_model(self.commands);
            lemma_messages_model(self.buttons);
            lemma_messages_model(self.stateful_msg_handlers);
            lemma_variants_model(self.variants);
        }
        done
    }
}

} // verus!
