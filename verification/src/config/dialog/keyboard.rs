//! Keyboards and their rows, and how they resolve to buttons.

use std::sync::Arc;

use vstd::prelude::*;

use crate::config::dialog::button::{
    button_of, not_attached, settled_button, wrong_data, wrong_data_text, ButtonDefinition,
    ButtonModel, ButtonRaw, ButtonRawModel,
};
use crate::config::function::{not_attached_text, slot_of, BotFunction, FunctionSlot, SlotModel};
use crate::config::result::{ConfigError, ConfigResult};
use crate::config::traits::provider::{
    Provider, ProviderCall, ProviderDeserialize, ProviderError,
};
use crate::config::traits::resolve_value::ResolveValue;
use crate::config::value::{RawModel, RawValue};
use crate::utils::parcelable::{ParcelFault, ParcelType, Parcelable, ParcelableResult};

verus! {

/// A keyboard as a script writes it: its rows, or a callable that gives
/// them.
pub enum KeyboardDefinition<P: Provider> {
    Rows(Vec<RowDefinition<P>>),
    Function(BotFunction<P>),
}

/// A row of a keyboard as a script writes it: its buttons, or a callable
/// that gives them.
pub enum RowDefinition<P: Provider> {
    Buttons(Vec<ButtonDefinition<P>>),
    Function(BotFunction<P>),
}

/// The mathematical form of a `RowDefinition`.
pub enum RowModel<F> {
    Buttons(Seq<ButtonModel<F>>),
    Function(SlotModel<F>),
}

/// The mathematical form of a `KeyboardDefinition`.
pub enum KeyboardModel<F> {
    Rows(Seq<RowModel<F>>),
    Function(SlotModel<F>),
}

/// The models of a list of buttons.
pub open spec fn button_models<P: Provider>(buttons: Seq<ButtonDefinition<P>>) -> Seq<
    ButtonModel<P::Function>,
> {
    Seq::new(buttons.len(), |i: int| buttons[i].model())
}

/// The models of a list of rows.
pub open spec fn row_models<P: Provider>(rows: Seq<RowDefinition<P>>) -> Seq<RowModel<P::Function>> {
    Seq::new(rows.len(), |i: int| rows[i].model())
}

/// A row as a script writes it: a list of buttons, or a callable.
pub open spec fn row_of<F>(raw: RawModel<F>, live: bool) -> Option<RowModel<F>> {
    match raw {
        RawModel::List(items) => if forall|i: int|
            0 <= i < items.len() ==> button_of(#[trigger] items[i], live) is Some {
            Some(RowModel::Buttons(Seq::new(items.len(), |i: int| button_of(items[i], live)->0)))
        } else {
            None
        },
        _ => match slot_of(raw, live) {
            Some(slot) => Some(RowModel::Function(slot)),
            None => None,
        },
    }
}

/// A keyboard as a script writes it: a list of rows, or a callable.
pub open spec fn keyboard_of<F>(raw: RawModel<F>, live: bool) -> Option<KeyboardModel<F>> {
    match raw {
        RawModel::List(items) => if forall|i: int|
            0 <= i < items.len() ==> row_of(#[trigger] items[i], live) is Some {
            Some(KeyboardModel::Rows(Seq::new(items.len(), |i: int| row_of(items[i], live)->0)))
        } else {
            None
        },
        _ => match slot_of(raw, live) {
            Some(slot) => Some(KeyboardModel::Function(slot)),
            None => None,
        },
    }
}

impl<P: Provider> RowDefinition<P> {
    /// Reads a row from a value of a script.
    pub fn from_raw(raw: &RawValue<P::Function>) -> (row: Option<Self>)
        ensures
            match row_of(raw.model(), false) {
                Some(m) => row matches Some(r) && r.model() == m,
                None => row is None,
            },
    {
        match raw.as_list() {
            Some(items) => {
                let ghost models = raw.model()->List_0;
                let mut buttons: Vec<ButtonDefinition<P>> = Vec::new();
                let mut i: usize = 0;
                while i < items.len()
                    invariant
                        i <= items@.len(),
                        raw.model() == RawModel::List(models),
                        models.len() == items@.len(),
                        forall|k: int| 0 <= k < items@.len() ==> models[k] == (#[trigger] items@[k]).model(),
                        buttons@.len() == i,
                        forall|k: int| 0 <= k < i ==> button_of(#[trigger] models[k], false) == Some(
                            buttons@[k].model(),
                        ),
                    decreases items@.len() - i,
                {
                    match ButtonDefinition::from_raw(&items[i]) {
                        Some(button) => {
                            buttons.push(button);
                        },
                        None => {
                            proof {
                                assert(button_of(models[i as int], false) is None);
                            }
                            return None;
                        },
                    }
                    i += 1;
                }
                proof {
                    assert(button_models(buttons@) =~= row_of(raw.model(), false)->0->Buttons_0);
                }
                Some(RowDefinition::Buttons(buttons))
            },
            None => match BotFunction::from_raw(raw) {
                Some(f) => Some(RowDefinition::Function(f)),
                None => None,
            },
        }
    }

    /// The row as a mathematical value.
    pub open spec fn model(&self) -> RowModel<P::Function> {
        match self {
            RowDefinition::Buttons(buttons) => RowModel::Buttons(button_models(buttons@)),
            RowDefinition::Function(f) => RowModel::Function(f.model()),
        }
    }

    pub fn duplicate(&self) -> (copy: Self)
        ensures
            copy.model() == self.model(),
    {
        match self {
            RowDefinition::Buttons(buttons) => {
                let mut copies: Vec<ButtonDefinition<P>> = Vec::new();
                let mut i: usize = 0;
                while i < buttons.len()
                    invariant
                        i <= buttons@.len(),
                        copies@.len() == i,
                        forall|k: int| 0 <= k < i ==> (#[trigger] copies@[k]).model() == buttons@[k].model(),
                    decreases buttons@.len() - i,
                {
                    copies.push(buttons[i].duplicate());
                    i += 1;
                }
                proof {
                    assert(button_models(copies@) =~= button_models(buttons@));
                }
                RowDefinition::Buttons(copies)
            },
            RowDefinition::Function(f) => RowDefinition::Function(f.duplicate()),
        }
    }
}

impl<P: Provider> KeyboardDefinition<P> {
    /// Reads a keyboard from a value of a script.
    pub fn from_raw(raw: &RawValue<P::Function>) -> (keyboard: Option<Self>)
        ensures
            match keyboard_of(raw.model(), false) {
                Some(m) => keyboard matches Some(k) && k.model() == m,
                None => keyboard is None,
            },
    {
        match raw.as_list() {
            Some(items) => {
                let ghost models = raw.model()->List_0;
                let mut rows: Vec<RowDefinition<P>> = Vec::new();
                let mut i: usize = 0;
                while i < items.len()
                    invariant
                        i <= items@.len(),
                        raw.model() == RawModel::List(models),
                        models.len() == items@.len(),
                        forall|k: int| 0 <= k < items@.len() ==> models[k] == (#[trigger] items@[k]).model(),
                        rows@.len() == i,
                        forall|k: int| 0 <= k < i ==> row_of(#[trigger] models[k], false) == Some(
                            rows@[k].model(),
                        ),
                    decreases items@.len() - i,
                {
                    match RowDefinition::from_raw(&items[i]) {
                        Some(row) => {
                            rows.push(row);
                        },
                        None => {
                            proof {
                                assert(row_of(models[i as int], false) is None);
                            }
                            return None;
                        },
                    }
                    i += 1;
                }
                proof {
                    assert(row_models(rows@) =~= keyboard_of(raw.model(), false)->0->Rows_0);
                }
                Some(KeyboardDefinition::Rows(rows))
            },
            None => match BotFunction::from_raw(raw) {
                Some(f) => Some(KeyboardDefinition::Function(f)),
                None => None,
            },
        }
    }

    /// The keyboard as a mathematical value.
    pub open spec fn model(&self) -> KeyboardModel<P::Function> {
        match self {
            KeyboardDefinition::Rows(rows) => KeyboardModel::Rows(row_models(rows@)),
            KeyboardDefinition::Function(f) => KeyboardModel::Function(f.model()),
        }
    }

    pub fn duplicate(&self) -> (copy: Self)
        ensures
            copy.model() == self.model(),
    {
        match self {
            KeyboardDefinition::Rows(rows) => {
                let mut copies: Vec<RowDefinition<P>> = Vec::new();
                let mut i: usize = 0;
                while i < rows.len()
                    invariant
                        i <= rows@.len(),
                        copies@.len() == i,
                        forall|k: int| 0 <= k < i ==> (#[trigger] copies@[k]).model() == rows@[k].model(),
                    decreases rows@.len() - i,
                {
                    copies.push(rows[i].duplicate());
                    i += 1;
                }
                proof {
                    assert(row_models(copies@) =~= row_models(rows@));
                }
                KeyboardDefinition::Rows(copies)
            },
            KeyboardDefinition::Function(f) => KeyboardDefinition::Function(f.duplicate()),
        }
    }
}

/// What a list of buttons that holds no live callable resolves to: the
/// buttons, or the path of the first callable that was never put back.
pub open spec fn settled_buttons<F>(buttons: Seq<ButtonModel<F>>) -> Result<
    Seq<ButtonRawModel>,
    Seq<char>,
>
    decreases buttons.len(),
{
    if buttons.len() == 0 {
        Ok(Seq::empty())
    } else {
        match settled_buttons(buttons.drop_last()) {
            Err(path) => Err(path),
            Ok(front) => match settled_button(buttons.last()) {
                Ok(button) => Ok(front.push(button)),
                Err(path) => Err(path),
            },
        }
    }
}

/// What a row that holds no live callable resolves to.
pub open spec fn settled_row<F>(row: RowModel<F>) -> Result<Seq<ButtonRawModel>, Seq<char>> {
    match row {
        RowModel::Buttons(buttons) => settled_buttons(buttons),
        RowModel::Function(SlotModel::Placeholder(path)) => Err(path),
        RowModel::Function(SlotModel::Live(_)) => Err(Seq::empty()),
    }
}

/// What a list of rows that holds no live callable resolves to: the rows,
/// or the path of the first callable that was never put back.
pub open spec fn settled_rows<F>(rows: Seq<RowModel<F>>) -> Result<
    Seq<Seq<ButtonRawModel>>,
    Seq<char>,
>
    decreases rows.len(),
{
    if rows.len() == 0 {
        Ok(Seq::empty())
    } else {
        match settled_rows(rows.drop_last()) {
            Err(path) => Err(path),
            Ok(front) => match settled_row(rows.last()) {
                Ok(row) => Ok(front.push(row)),
                Err(path) => Err(path),
            },
        }
    }
}

/// What a keyboard that holds no live callable resolves to.
pub open spec fn settled_keyboard<F>(keyboard: KeyboardModel<F>) -> Result<
    Seq<Seq<ButtonRawModel>>,
    Seq<char>,
> {
    match keyboard {
        KeyboardModel::Rows(rows) => settled_rows(rows),
        KeyboardModel::Function(SlotModel::Placeholder(path)) => Err(path),
        KeyboardModel::Function(SlotModel::Live(_)) => Err(Seq::empty()),
    }
}

/// The models of a list of buttons in full.
pub open spec fn raw_models(buttons: Seq<ButtonRaw>) -> Seq<ButtonRawModel> {
    Seq::new(buttons.len(), |i: int| buttons[i].model())
}

/// The models of the rows of a keyboard in full.
pub open spec fn layout_models(rows: Seq<Vec<ButtonRaw>>) -> Seq<Seq<ButtonRawModel>> {
    Seq::new(rows.len(), |i: int| raw_models(rows[i]@))
}

/// Whether `outcome` is what the resolution of a settled row gives.
pub open spec fn is_settled_row(
    outcome: ConfigResult<Vec<ButtonRaw>>,
    settled: Result<Seq<ButtonRawModel>, Seq<char>>,
) -> bool {
    match settled {
        Ok(m) => outcome matches Ok(row) && raw_models(row@) == m,
        Err(path) => outcome matches Err(ConfigError::Other(msg)) && msg@ == not_attached_text(
            path,
        ),
    }
}

/// Whether `outcome` is what the resolution of a settled keyboard gives.
pub open spec fn is_settled_keyboard(
    outcome: ConfigResult<Vec<Vec<ButtonRaw>>>,
    settled: Result<Seq<Seq<ButtonRawModel>>, Seq<char>>,
) -> bool {
    match settled {
        Ok(m) => outcome matches Ok(rows) && layout_models(rows@) == m,
        Err(path) => outcome matches Err(ConfigError::Other(msg)) && msg@ == not_attached_text(
            path,
        ),
    }
}

/// No button of the list is a live callable.
pub open spec fn buttons_settled<F>(buttons: Seq<ButtonModel<F>>) -> bool {
    forall|i: int|
        0 <= i < buttons.len() ==> !((#[trigger] buttons[i]) matches ButtonModel::Function(
            SlotModel::Live(_),
        ))
}

/// The row holds no live callable.
pub open spec fn row_settled<F>(row: RowModel<F>) -> bool {
    match row {
        RowModel::Buttons(buttons) => buttons_settled(buttons),
        RowModel::Function(slot) => slot is Placeholder,
    }
}

/// The keyboard holds no live callable.
pub open spec fn keyboard_settled<F>(keyboard: KeyboardModel<F>) -> bool {
    match keyboard {
        KeyboardModel::Rows(rows) => forall|i: int|
            0 <= i < rows.len() ==> row_settled(#[trigger] rows[i]),
        KeyboardModel::Function(slot) => slot is Placeholder,
    }
}

/// Where the first buttons of a list resolve and the next one does not,
/// the list resolves to the error of that button.
pub proof fn lemma_first_unsettled_button<F>(buttons: Seq<ButtonModel<F>>, i: int)
    requires
        0 <= i < buttons.len(),
        settled_buttons(buttons.take(i)) is Ok,
        settled_button(buttons[i]) is Err,
    ensures
        settled_buttons(buttons) == Err::<Seq<ButtonRawModel>, Seq<char>>(
            settled_button(buttons[i])->Err_0,
        ),
    decreases buttons.len() - i,
{
    if i == buttons.len() - 1 {
        assert(buttons.drop_last() =~= buttons.take(i));
    } else {
        let shorter = buttons.drop_last();
        assert(shorter.take(i) =~= buttons.take(i));
        lemma_first_unsettled_button(shorter, i);
    }
}

/// Where the first rows of a list resolve and the next one does not, the
/// list resolves to the error of that row.
pub proof fn lemma_first_unsettled_row<F>(rows: Seq<RowModel<F>>, i: int)
    requires
        0 <= i < rows.len(),
        settled_rows(rows.take(i)) is Ok,
        settled_row(rows[i]) is Err,
    ensures
        settled_rows(rows) == Err::<Seq<Seq<ButtonRawModel>>, Seq<char>>(
            settled_row(rows[i])->Err_0,
        ),
    decreases rows.len() - i,
{
    if i == rows.len() - 1 {
        assert(rows.drop_last() =~= rows.take(i));
    } else {
        let shorter = rows.drop_last();
        assert(shorter.take(i) =~= rows.take(i));
        lemma_first_unsettled_row(shorter, i);
    }
}

/// A row read from plain data holds no live callable.
pub proof fn lemma_row_of_settled<F>(raw: RawModel<F>)
    ensures
        row_of(raw, false) matches Some(row) ==> row_settled(row),
{
}

/// A keyboard read from plain data holds no live callable.
pub proof fn lemma_keyboard_of_settled<F>(raw: RawModel<F>)
    ensures
        keyboard_of(raw, false) matches Some(keyboard) ==> keyboard_settled(keyboard),
{
    match keyboard_of(raw, false) {
        Some(KeyboardModel::Rows(rows)) => {
            assert forall|i: int| 0 <= i < rows.len() implies row_settled(#[trigger] rows[i]) by {
                lemma_row_of_settled(raw->List_0[i]);
            }
        },
        _ => {},
    }
}

impl<P: Provider> RowDefinition<P> {
    /// The buttons that the row stands for. A row, or a button of it, that
    /// is a callable calls the script, and takes what the script gives as
    /// plain data in its place.
    pub fn resolve_row(self) -> (row: ConfigResult<Vec<ButtonRaw>>) where
        P::Function: ProviderCall<P>,
        P::Value: ProviderDeserialize<P>,
        P::Error: ProviderError,

        ensures
            row_settled(self.model()) ==> is_settled_row(row, settled_row(self.model())),
    {
        match self {
            RowDefinition::Buttons(buttons) => {
                let ghost all = buttons@;
                let ghost models = button_models(all);
                let mut resolved: Vec<ButtonRaw> = Vec::new();
                proof {
                    assert(models.take(0) =~= Seq::empty());
                    assert(raw_models(resolved@) =~= Seq::empty());
                }
                for button in it: buttons
                    invariant
                        it.seq() == all,
                        models == button_models(all),
                        self.model() == RowModel::<P::Function>::Buttons(models),
                        buttons_settled(models) ==> settled_buttons(
                            models.take(it.index() as int),
                        ) == Ok::<Seq<ButtonRawModel>, Seq<char>>(raw_models(resolved@)),
                {
                    let ghost n = it.index();
                    proof {
                        assert(button == all[n]);
                        assert(models[n] == button.model());
                        assert(models.take(n + 1).drop_last() =~= models.take(n));
                        assert(models.take(n + 1).last() == models[n]);
                    }
                    match button.resolve_button() {
                        Ok(raw) => {
                            proof {
                                assert(raw_models(resolved@.push(raw)) =~= raw_models(
                                    resolved@,
                                ).push(raw.model()));
                            }
                            resolved.push(raw);
                        },
                        Err(e) => {
                            proof {
                                if buttons_settled(models) {
                                    lemma_first_unsettled_button(models, n);
                                }
                            }
                            return Err(e);
                        },
                    }
                }
                proof {
                    assert(models.take(all.len() as int) =~= models);
                }
                Ok(resolved)
            },
            RowDefinition::Function(f) => {
                let data = match BotFunction::<P>::returned(f.call()) {
                    Ok(data) => data,
                    Err(e) => {
                        return Err(e);
                    },
                };
                Self::resolve_returned(&data)
            },
        }
    }

    /// The buttons that a callable gave as plain data: data that is no row
    /// is an error.
    pub fn resolve_returned(data: &RawValue<P::Function>) -> (row: ConfigResult<Vec<ButtonRaw>>)
        ensures
            match row_of(data.model(), false) {
                Some(m) => is_settled_row(row, settled_row(m)),
                None => row matches Err(ConfigError::ProviderError(msg)) && msg@
                    == wrong_data_text(),
            },
    {
        proof {
            lemma_row_of_settled(data.model());
        }
        match Self::from_raw(data) {
            Some(RowDefinition::Buttons(buttons)) => RowDefinition::<P>::Buttons(
                buttons,
            ).resolve_settled(),
            Some(RowDefinition::Function(f)) => match f.0 {
                FunctionSlot::Placeholder(path) => Err(not_attached(path.as_str())),
                FunctionSlot::Live(_) => Err(wrong_data()),
            },
            None => Err(wrong_data()),
        }
    }

    /// The buttons of a row that holds no live callable. The script is not
    /// called.
    pub fn resolve_settled(self) -> (row: ConfigResult<Vec<ButtonRaw>>)
        requires
            row_settled(self.model()),
        ensures
            is_settled_row(row, settled_row(self.model())),
    {
        match self {
            RowDefinition::Buttons(buttons) => {
                let ghost all = buttons@;
                let ghost models = button_models(all);
                let mut resolved: Vec<ButtonRaw> = Vec::new();
                proof {
                    assert(models.take(0) =~= Seq::empty());
                    assert(raw_models(resolved@) =~= Seq::empty());
                }
                for button in it: buttons
                    invariant
                        it.seq() == all,
                        models == button_models(all),
                        buttons_settled(models),
                        self.model() == RowModel::<P::Function>::Buttons(models),
                        settled_buttons(models.take(it.index() as int)) == Ok::<
                            Seq<ButtonRawModel>,
                            Seq<char>,
                        >(raw_models(resolved@)),
                {
                    let ghost n = it.index();
                    proof {
                        assert(button == all[n]);
                        assert(models[n] == button.model());
                        assert(models.take(n + 1).drop_last() =~= models.take(n));
                        assert(models.take(n + 1).last() == models[n]);
                    }
                    let raw = match button {
                        ButtonDefinition::Button(raw) => raw,
                        ButtonDefinition::ButtonLiteral(l) => ButtonRaw::from_literal(l),
                        ButtonDefinition::Function(f) => {
                            proof {
                                lemma_first_unsettled_button(models, n);
                            }
                            return match f.0 {
                                FunctionSlot::Placeholder(path) => Err(not_attached(path.as_str())),
                                FunctionSlot::Live(_) => Err(wrong_data()),
                            };
                        },
                    };
                    proof {
                        assert(raw_models(resolved@.push(raw)) =~= raw_models(resolved@).push(
                            raw.model(),
                        ));
                    }
                    resolved.push(raw);
                }
                proof {
                    assert(models.take(all.len() as int) =~= models);
                }
                Ok(resolved)
            },
            RowDefinition::Function(f) => match f.0 {
                FunctionSlot::Placeholder(path) => Err(not_attached(path.as_str())),
                FunctionSlot::Live(_) => Err(wrong_data()),
            },
        }
    }
}

impl<P: Provider> ResolveValue for RowDefinition<P> where
    P::Function: ProviderCall<P>,
    P::Value: ProviderDeserialize<P>,
    P::Error: ProviderError,
 {
    type Value = Vec<ButtonRaw>;

    type Runtime = P;

    fn resolve(self) -> (row: ConfigResult<Vec<ButtonRaw>>)
        ensures
            row_settled(self.model()) ==> is_settled_row(row, settled_row(self.model())),
    {
        self.resolve_row()
    }
}

impl<P: Provider> KeyboardDefinition<P> {
    /// The rows of a keyboard that holds no live callable. The script is
    /// not called.
    pub fn resolve_settled(self) -> (rows: ConfigResult<Vec<Vec<ButtonRaw>>>)
        requires
            keyboard_settled(self.model()),
        ensures
            is_settled_keyboard(rows, settled_keyboard(self.model())),
    {
        match self {
            KeyboardDefinition::Rows(rows) => {
                let ghost all = rows@;
                let ghost models = row_models(all);
                let mut resolved: Vec<Vec<ButtonRaw>> = Vec::new();
                proof {
                    assert(models.take(0) =~= Seq::empty());
                    assert(layout_models(resolved@) =~= Seq::empty());
                }
                for row in it: rows
                    invariant
                        it.seq() == all,
                        models == row_models(all),
                        keyboard_settled(KeyboardModel::<P::Function>::Rows(models)),
                        self.model() == KeyboardModel::<P::Function>::Rows(models),
                        settled_rows(models.take(it.index() as int)) == Ok::<
                            Seq<Seq<ButtonRawModel>>,
                            Seq<char>,
                        >(layout_models(resolved@)),
                {
                    let ghost n = it.index();
                    proof {
                        assert(row == all[n]);
                        assert(models[n] == row.model());
                        assert(row_settled(models[n]));
                        assert(models.take(n + 1).drop_last() =~= models.take(n));
                        assert(models.take(n + 1).last() == models[n]);
                    }
                    match row.resolve_settled() {
                        Ok(buttons) => {
                            proof {
                                assert(layout_models(resolved@.push(buttons)) =~= layout_models(
                                    resolved@,
                                ).push(raw_models(buttons@)));
                            }
                            resolved.push(buttons);
                        },
                        Err(e) => {
                            proof {
                                lemma_first_unsettled_row(models, n);
                            }
                            return Err(e);
                        },
                    }
                }
                proof {
                    assert(models.take(all.len() as int) =~= models);
                }
                Ok(resolved)
            },
            KeyboardDefinition::Function(f) => match f.0 {
                FunctionSlot::Placeholder(path) => Err(not_attached(path.as_str())),
                FunctionSlot::Live(_) => Err(wrong_data()),
            },
        }
    }

    /// The rows that a callable gave as plain data: data that is no
    /// keyboard is an error.
    pub fn resolve_returned(data: &RawValue<P::Function>) -> (rows: ConfigResult<
        Vec<Vec<ButtonRaw>>,
    >)
        ensures
            match keyboard_of(data.model(), false) {
                Some(m) => is_settled_keyboard(rows, settled_keyboard(m)),
                None => rows matches Err(ConfigError::ProviderError(msg)) && msg@
                    == wrong_data_text(),
            },
    {
        proof {
            lemma_keyboard_of_settled(data.model());
        }
        match Self::from_raw(data) {
            Some(keyboard) => keyboard.resolve_settled(),
            None => Err(wrong_data()),
        }
    }

    /// The rows of buttons that the keyboard stands for. A keyboard, a row
    /// or a button that is a callable calls the script, and takes what the
    /// script gives as plain data in its place.
    pub fn resolve_keyboard(self) -> (rows: ConfigResult<Vec<Vec<ButtonRaw>>>) where
        P::Function: ProviderCall<P>,
        P::Value: ProviderDeserialize<P>,
        P::Error: ProviderError,

        ensures
            keyboard_settled(self.model()) ==> is_settled_keyboard(
                rows,
                settled_keyboard(self.model()),
            ),
    {
        match self {
            KeyboardDefinition::Rows(rows) => {
                let ghost all = rows@;
                let ghost models = row_models(all);
                let mut resolved: Vec<Vec<ButtonRaw>> = Vec::new();
                proof {
                    assert(models.take(0) =~= Seq::empty());
                    assert(layout_models(resolved@) =~= Seq::empty());
                }
                for row in it: rows
                    invariant
                        it.seq() == all,
                        models == row_models(all),
                        self.model() == KeyboardModel::<P::Function>::Rows(models),
                        keyboard_settled(self.model()) ==> settled_rows(
                            models.take(it.index() as int),
                        ) == Ok::<Seq<Seq<ButtonRawModel>>, Seq<char>>(layout_models(resolved@)),
                {
                    let ghost n = it.index();
                    proof {
                        assert(row == all[n]);
                        assert(models[n] == row.model());
                        assert(models.take(n + 1).drop_last() =~= models.take(n));
                        assert(models.take(n + 1).last() == models[n]);
                        if keyboard_settled(self.model()) {
                            assert(row_settled(models[n]));
                        }
                    }
                    match row.resolve_row() {
                        Ok(buttons) => {
                            proof {
                                assert(layout_models(resolved@.push(buttons)) =~= layout_models(
                                    resolved@,
                                ).push(raw_models(buttons@)));
                            }
                            resolved.push(buttons);
                        },
                        Err(e) => {
                            proof {
                                if keyboard_settled(self.model()) {
                                    lemma_first_unsettled_row(models, n);
                                }
                            }
                            return Err(e);
                        },
                    }
                }
                proof {
                    assert(models.take(all.len() as int) =~= models);
                }
                Ok(resolved)
            },
            KeyboardDefinition::Function(f) => {
                let data = match BotFunction::<P>::returned(f.call()) {
                    Ok(data) => data,
                    Err(e) => {
                        return Err(e);
                    },
                };
                Self::resolve_returned(&data)
            },
        }
    }
}

impl<P: Provider> ResolveValue for KeyboardDefinition<P> where
    P::Function: ProviderCall<P>,
    P::Value: ProviderDeserialize<P>,
    P::Error: ProviderError,
 {
    type Value = Vec<Vec<ButtonRaw>>;

    type Runtime = P;

    fn resolve(self) -> (rows: ConfigResult<Vec<Vec<ButtonRaw>>>)
        ensures
            keyboard_settled(self.model()) ==> is_settled_keyboard(
                rows,
                settled_keyboard(self.model()),
            ),
    {
        self.resolve_keyboard()
    }
}

impl<P: Provider> Parcelable<P::Function> for RowDefinition<P> {
    type Model = RowModel<P::Function>;

    open spec fn parcel_model(&self) -> RowModel<P::Function> {
        self.model()
    }

    /// A row is its list of buttons, or its slot.
    open spec fn attached(
        model: RowModel<P::Function>,
        path: Option<Seq<char>>,
        function: P::Function,
    ) -> Result<RowModel<P::Function>, ParcelFault> {
        match model {
            RowModel::Buttons(buttons) => match <Vec<ButtonDefinition<P>> as Parcelable<
                P::Function,
            >>::attached(buttons, path, function) {
                Ok(m) => Ok(RowModel::Buttons(m)),
                Err(fault) => Err(fault),
            },
            RowModel::Function(slot) => match <BotFunction<P> as Parcelable<
                P::Function,
            >>::attached(slot, path, function) {
                Ok(m) => Ok(RowModel::Function(m)),
                Err(fault) => Err(fault),
            },
        }
    }

    open spec fn kind_of(model: RowModel<P::Function>) -> ParcelType {
        match model {
            RowModel::Buttons(_) => ParcelType::Parcelable,
            RowModel::Function(_) => ParcelType::Function,
        }
    }

    proof fn lemma_slot(model: RowModel<P::Function>, function: 
                P::Function,
            ) {
    }

    fn resolve(&self) -> (kind: ParcelType) {
        match self {
            RowDefinition::Buttons(_) => ParcelType::Parcelable,
            RowDefinition::Function(_) => ParcelType::Function,
        }
    }

    fn attach(&mut self, path: Option<&str>, function: Arc<P::Function>) -> (done:
        ParcelableResult<()>) {
        proof {
            if *self is Buttons {
                assert((*self)->Buttons_0.parcel_model() =~= button_models((*self)->Buttons_0@));
            }
        }
        let done = match self {
            RowDefinition::Buttons(buttons) => buttons.attach(path, function),
            RowDefinition::Function(f) => f.attach(path, function),
        };
        proof {
            if *self is Buttons {
                assert((*self)->Buttons_0.parcel_model() =~= button_models((*self)->Buttons_0@));
            }
        }
        done
    }
}

impl<P: Provider> Parcelable<P::Function> for KeyboardDefinition<P> {
    type Model = KeyboardModel<P::Function>;

    open spec fn parcel_model(&self) -> KeyboardModel<P::Function> {
        self.model()
    }

    /// A keyboard is its list of rows, or its slot.
    open spec fn attached(
        model: KeyboardModel<P::Function>,
        path: Option<Seq<char>>,
        function: P::Function,
    ) -> Result<KeyboardModel<P::Function>, ParcelFault> {
        match model {
            KeyboardModel::Rows(rows) => match <Vec<RowDefinition<P>> as Parcelable<
                P::Function,
            >>::attached(rows, path, function) {
                Ok(m) => Ok(KeyboardModel::Rows(m)),
                Err(fault) => Err(fault),
            },
            KeyboardModel::Function(slot) => match <BotFunction<P> as Parcelable<
                P::Function,
            >>::attached(slot, path, function) {
                Ok(m) => Ok(KeyboardModel::Function(m)),
                Err(fault) => Err(fault),
            },
        }
    }

    open spec fn kind_of(model: KeyboardModel<P::Function>) -> ParcelType {
        match model {
            KeyboardModel::Rows(_) => ParcelType::Parcelable,
            KeyboardModel::Function(_) => ParcelType::Function,
        }
    }

    proof fn lemma_slot(model: KeyboardModel<P::Function>, function: 
                P::Function,
            ) {
    }

    fn resolve(&self) -> (kind: ParcelType) {
        match self {
            KeyboardDefinition::Rows(_) => ParcelType::Parcelable,
            KeyboardDefinition::Function(_) => ParcelType::Function,
        }
    }

    fn attach(&mut self, path: Option<&str>, function: Arc<P::Function>) -> (done:
        ParcelableResult<()>) {
        proof {
            if *self is Rows {
                assert((*self)->Rows_0.parcel_model() =~= row_models((*self)->Rows_0@));
            }
        }
        let done = match self {
            KeyboardDefinition::Rows(rows) => rows.attach(path, function),
            KeyboardDefinition::Function(f) => f.attach(path, function),
        };
        proof {
            if *self is Rows {
                assert((*self)->Rows_0.parcel_model() =~= row_models((*self)->Rows_0@));
            }
        }
        done
    }
}

} // verus!
