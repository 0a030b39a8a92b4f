//! The proof that loading a configuration in three passes keeps every
//! callable of the script: `law_load_keeps_callables`, and the lemmas that
//! lead to it, one for each kind of node of a configuration.

use vstd::prelude::*;

use crate::clock::Timestamp;
use crate::config::result::LoadError;
use crate::config::{attach_all, bot_config_of, runner_config_of, ConfigModel, RunnerConfig};

use crate::config::dialog::button::{button_of, ButtonDefinition, ButtonModel};
use crate::config::dialog::keyboard::{
    keyboard_of, row_of, KeyboardDefinition, KeyboardModel, RowDefinition, RowModel,
};
use crate::config::dialog::message::{
    message_of, with_defaults, with_literal, BotMessage, MessageModel,
};
use crate::config::dialog::{
    dialog_of, messages_model, messages_of, names_distinct, variants_of, BotDialog, DialogModel,
    MessagesModel,
};
use crate::config::function::{slot_of, BotFunction, SlotModel};
use crate::config::notification::{
    filter_in, note_message_of, notification_of, notifications_in, BotNotification, FilterModel,
    NoteMessageModel, NotificationFilter, NotificationMessage, NotificationModel,
};
use crate::config::time::time_of;
use crate::config::traits::provider::Provider;
use crate::config::value::{
    bool_in, field_of, functions_of, given_field, int_in, join_path, stripped, text_in, RawModel,
};
use crate::text::{decimal, lemma_decimal_round_trip};
use crate::utils::parcelable::{
    head_of, key_position, lemma_first_dot, lemma_key_position, lemma_no_dot, tail_of, ParcelFault,
    Parcelable,
};
use crate::utils::table::{lemma_key_index, Table};

verus! {

/// A callable with the path of its place, seen from a node of the tree:
/// `None` for the node itself.
pub type Placed<F> = (Option<Seq<char>>, F);

/// The path of a place below the child `name`: the child itself where
/// `rest` is `None`.
pub open spec fn below(name: Seq<char>, rest: Option<Seq<char>>) -> Seq<char> {
    match rest {
        None => name,
        Some(r) => name + seq!['.'] + r,
    }
}

/// The callables of a child, as its parent sees them.
pub open spec fn under<F>(name: Seq<char>, placed: Seq<Placed<F>>) -> Seq<Placed<F>> {
    Seq::new(placed.len(), |i: int| (Some(below(name, placed[i].0)), placed[i].1))
}

/// The callables of a tree with the paths of their places, seen from the
/// root of the tree, in the order in which the tree holds them.
pub open spec fn placed_in<F>(value: RawModel<F>) -> Seq<Placed<F>>
    decreases value, 0nat,
{
    match value {
        RawModel::Function(f) => seq![(None, f)],
        RawModel::List(items) => placed_in_items(items, items.len()),
        RawModel::Object(fields) => placed_in_fields(fields, fields.len()),
        _ => seq![],
    }
}

/// The callables of the first `n` items of a list.
pub open spec fn placed_in_items<F>(items: Seq<RawModel<F>>, n: nat) -> Seq<Placed<F>>
    decreases items, n,
{
    if n == 0 || n > items.len() {
        seq![]
    } else {
        placed_in_items(items, (n - 1) as nat) + under(
            decimal((n - 1) as nat),
            placed_in(items[n - 1]),
        )
    }
}

/// The callables of the first `n` fields of an object.
pub open spec fn placed_in_fields<F>(fields: Seq<(Seq<char>, RawModel<F>)>, n: nat) -> Seq<
    Placed<F>,
>
    decreases fields, n,
{
    if n == 0 || n > fields.len() {
        seq![]
    } else {
        placed_in_fields(fields, (n - 1) as nat) + under(
            fields[n - 1].0,
            placed_in(fields[n - 1].1),
        )
    }
}

/// A name that can stand in a dotted path: it is not empty and holds no
/// dot.
pub open spec fn is_name(name: Seq<char>) -> bool {
    name.len() > 0 && !name.contains('.')
}

/// Every object of the tree holds each name once, and every name can stand
/// in a dotted path.
pub open spec fn well_keyed<F>(value: RawModel<F>) -> bool
    decreases value,
{
    match value {
        RawModel::List(items) => forall|i: int|
            0 <= i < items.len() ==> well_keyed(#[trigger] items[i]),
        RawModel::Object(fields) => {
            &&& forall|i: int| 0 <= i < fields.len() ==> is_name((#[trigger] fields[i]).0)
            &&& forall|i: int, j: int|
                0 <= i < j < fields.len() ==> (#[trigger] fields[i]).0 != (#[trigger] fields[j]).0
            &&& forall|i: int| 0 <= i < fields.len() ==> well_keyed((#[trigger] fields[i]).1)
        },
        _ => true,
    }
}

/// A node after the callables of `placed` have been put into their slots,
/// one after the other; a callable whose path leads to no slot is dropped.
pub open spec fn put_all<F, T: Parcelable<F>>(model: T::Model, placed: Seq<Placed<F>>) -> T::Model
    decreases placed.len(),
{
    if placed.len() == 0 {
        model
    } else {
        let before = put_all::<F, T>(model, placed.drop_last());
        match T::attached(before, placed.last().0, placed.last().1) {
            Ok(m) => m,
            Err(_) => before,
        }
    }
}

/// Putting the callables of two lists is putting those of the first, then
/// those of the second.
pub proof fn lemma_put_all_add<F, T: Parcelable<F>>(
    model: T::Model,
    first: Seq<Placed<F>>,
    second: Seq<Placed<F>>,
)
    ensures
        put_all::<F, T>(model, first + second) == put_all::<F, T>(
            put_all::<F, T>(model, first),
            second,
        ),
    decreases second.len(),
{
    if second.len() == 0 {
        assert(first + second =~= first);
    } else {
        assert((first + second).drop_last() =~= first + second.drop_last());
        assert((first + second).last() == second.last());
        lemma_put_all_add::<F, T>(model, first, second.drop_last());
    }
}

/// Putting no callable changes nothing.
pub proof fn lemma_put_all_nothing<F, T: Parcelable<F>>(model: T::Model)
    ensures
        put_all::<F, T>(model, Seq::<Placed<F>>::empty()) == model,
{
}

/// The first name of a path below a child is the name of the child, and
/// the rest of the path is the path seen from the child.
pub proof fn lemma_below(name: Seq<char>, rest: Option<Seq<char>>)
    requires
        is_name(name),
    ensures
        head_of(below(name, rest)) == name,
        tail_of(below(name, rest)) == rest,
{
    match rest {
        None => {
            lemma_no_dot(name);
        },
        Some(r) => {
            lemma_first_dot(name, r);
        },
    }
}

/// Where a parent hands every path below the child `name` to that child,
/// putting the callables of the child, as the parent sees them, into the
/// parent is putting them into the child.
pub proof fn lemma_put_all_child<F, Par: Parcelable<F>, C: Parcelable<F>>(
    parent: Par::Model,
    child: C::Model,
    with: spec_fn(C::Model) -> Par::Model,
    name: Seq<char>,
    placed: Seq<Placed<F>>,
)
    requires
        parent == with(child),
        forall|c: C::Model, rest: Option<Seq<char>>, f: F| #[trigger]
            Par::attached(with(c), Some(below(name, rest)), f) == match C::attached(c, rest, f) {
                Ok(m) => Ok::<Par::Model, ParcelFault>(with(m)),
                Err(fault) => Err(fault),
            },
    ensures
        put_all::<F, Par>(parent, under(name, placed)) == with(put_all::<F, C>(child, placed)),
    decreases placed.len(),
{
    if placed.len() > 0 {
        let shorter = placed.drop_last();
        assert(under(name, placed).drop_last() =~= under(name, shorter));
        lemma_put_all_child::<F, Par, C>(parent, child, with, name, shorter);
        let before = put_all::<F, C>(child, shorter);
        assert(under(name, placed).last() == (
            Some(below(name, placed.last().0)),
            placed.last().1,
        ));
        assert(Par::attached(with(before), Some(below(name, placed.last().0)), placed.last().1)
            == match C::attached(before, placed.last().0, placed.last().1) {
            Ok(m) => Ok::<Par::Model, ParcelFault>(with(m)),
            Err(fault) => Err(fault),
        });
    }
}

/// Where a parent has no slot at or below the name `name`, the callables
/// under that name are dropped.
pub proof fn lemma_put_all_nowhere<F, Par: Parcelable<F>>(
    parent: Par::Model,
    name: Seq<char>,
    placed: Seq<Placed<F>>,
)
    requires
        forall|rest: Option<Seq<char>>, f: F| #[trigger]
            Par::attached(parent, Some(below(name, rest)), f) is Err,
    ensures
        put_all::<F, Par>(parent, under(name, placed)) == parent,
    decreases placed.len(),
{
    if placed.len() > 0 {
        let shorter = placed.drop_last();
        assert(under(name, placed).drop_last() =~= under(name, shorter));
        lemma_put_all_nowhere::<F, Par>(parent, name, shorter);
        assert(under(name, placed).last() == (
            Some(below(name, placed.last().0)),
            placed.last().1,
        ));
        assert(Par::attached(parent, Some(below(name, placed.last().0)), placed.last().1) is Err);
    }
}

/// Whether the three passes keep the callables of a part of a
/// configuration, read by `of` as a node of the kind `T`: taking the
/// callables out of `raw`, which stands at `path`, reading the plain data,
/// and putting the callables back gives what reading `raw` with its live
/// callables gives; and the plain data is refused exactly where `raw` is.
pub open spec fn keeps<F, T: Parcelable<F>>(
    of: spec_fn(RawModel<F>, bool) -> Option<T::Model>,
    raw: RawModel<F>,
    path: Seq<char>,
) -> bool {
    match of(raw, true) {
        Some(direct) => of(stripped(raw, path), false) matches Some(typed) && put_all::<F, T>(
            typed,
            placed_in(raw),
        ) == direct,
        None => of(stripped(raw, path), false) is None,
    }
}

/// Putting callables into a place that is full is putting them into what
/// it holds; an empty place stays empty.
pub proof fn lemma_put_all_option<F, T: Parcelable<F>>(
    model: Option<T::Model>,
    placed: Seq<Placed<F>>,
)
    ensures
        put_all::<F, Option<T>>(model, placed) == match model {
            Some(m) => Some(put_all::<F, T>(m, placed)),
            None => None,
        },
    decreases placed.len(),
{
    if placed.len() > 0 {
        lemma_put_all_option::<F, T>(model, placed.drop_last());
    }
}

/// A list keeps the callables of its items where every item does.
#[verifier::rlimit(40)]
pub proof fn lemma_list_keeps<F, T: Parcelable<F>>(
    of: spec_fn(RawModel<F>, bool) -> Option<T::Model>,
    items: Seq<RawModel<F>>,
    path: Seq<char>,
    n: nat,
)
    requires
        n <= items.len(),
        forall|i: int|
            0 <= i < items.len() ==> #[trigger] keeps::<F, T>(
                of,
                items[i],
                join_path(path, decimal(i as nat)),
            ),
        forall|i: int| 0 <= i < items.len() ==> of(#[trigger] items[i], true) is Some,
    ensures
        put_all::<F, Vec<T>>(
            Seq::new(
                items.len(),
                |i: int| of(stripped(items[i], join_path(path, decimal(i as nat))), false)->0,
            ),
            placed_in_items(items, n),
        ) == Seq::new(
            items.len(),
            |i: int|
                if i < n {
                    of(items[i], true)->0
                } else {
                    of(stripped(items[i], join_path(path, decimal(i as nat))), false)->0
                },
        ),
    decreases n,
{
    let typed = Seq::new(
        items.len(),
        |i: int| of(stripped(items[i], join_path(path, decimal(i as nat))), false)->0,
    );
    let mixed = |k: nat|
        Seq::new(
            items.len(),
            |i: int|
                if i < k {
                    of(items[i], true)->0
                } else {
                    of(stripped(items[i], join_path(path, decimal(i as nat))), false)->0
                },
        );
    if n == 0 {
        assert(mixed(0) =~= typed);
    } else {
        let m = (n - 1) as nat;
        lemma_list_keeps::<F, T>(of, items, path, m);
        let before = mixed(m);
        let name = decimal(m);
        let placed = placed_in(items[m as int]);
        lemma_put_all_add::<F, Vec<T>>(typed, placed_in_items(items, m), under(name, placed));
        lemma_decimal_round_trip(m);
        let child = of(stripped(items[m as int], join_path(path, name)), false)->0;
        let with = |c: T::Model| before.update(m as int, c);
        assert(before =~= with(child));
        assert forall|c: T::Model, rest: Option<Seq<char>>, f: F| #[trigger]
            <Vec<T> as Parcelable<F>>::attached(with(c), Some(below(name, rest)), f)
                == match T::attached(c, rest, f) {
                Ok(x) => Ok::<Seq<T::Model>, ParcelFault>(with(x)),
                Err(fault) => Err(fault),
            } by {
            lemma_below(name, rest);
            assert(with(c)[m as int] == c);
            match T::attached(c, rest, f) {
                Ok(x) => {
                    assert(with(c).update(m as int, x) =~= with(x));
                },
                Err(_) => {},
            }
        }
        lemma_put_all_child::<F, Vec<T>, T>(before, child, with, name, placed);
        assert(keeps::<F, T>(of, items[m as int], join_path(path, decimal(m))));
        assert(with(put_all::<F, T>(child, placed)) =~= mixed(n));
    }
}

/// A table keeps the callables of its entries where every entry does.
#[verifier::rlimit(40)]
pub proof fn lemma_table_keeps<F, V: Parcelable<F>>(
    of: spec_fn(RawModel<F>, bool) -> Option<V::Model>,
    fields: Seq<(Seq<char>, RawModel<F>)>,
    path: Seq<char>,
    n: nat,
)
    requires
        n <= fields.len(),
        forall|i: int| 0 <= i < fields.len() ==> is_name((#[trigger] fields[i]).0),
        forall|i: int, j: int|
            0 <= i < j < fields.len() ==> (#[trigger] fields[i]).0 != (#[trigger] fields[j]).0,
        forall|i: int|
            0 <= i < fields.len() ==> #[trigger] keeps::<F, V>(
                of,
                fields[i].1,
                join_path(path, fields[i].0),
            ),
        forall|i: int| 0 <= i < fields.len() ==> of((#[trigger] fields[i]).1, true) is Some,
    ensures
        put_all::<F, Table<V>>(
            Seq::new(
                fields.len(),
                |i: int|
                    (
                        fields[i].0,
                        of(stripped(fields[i].1, join_path(path, fields[i].0)), false)->0,
                    ),
            ),
            placed_in_fields(fields, n),
        ) == Seq::new(
            fields.len(),
            |i: int|
                (
                    fields[i].0,
                    if i < n {
                        of(fields[i].1, true)->0
                    } else {
                        of(stripped(fields[i].1, join_path(path, fields[i].0)), false)->0
                    },
                ),
        ),
    decreases n,
{
    let typed = Seq::new(
        fields.len(),
        |i: int|
            (fields[i].0, of(stripped(fields[i].1, join_path(path, fields[i].0)), false)->0),
    );
    let mixed = |k: nat|
        Seq::new(
            fields.len(),
            |i: int|
                (
                    fields[i].0,
                    if i < k {
                        of(fields[i].1, true)->0
                    } else {
                        of(stripped(fields[i].1, join_path(path, fields[i].0)), false)->0
                    },
                ),
        );
    if n == 0 {
        assert(mixed(0) =~= typed);
    } else {
        let m = (n - 1) as nat;
        lemma_table_keeps::<F, V>(of, fields, path, m);
        let before = mixed(m);
        let name = fields[m as int].0;
        let placed = placed_in(fields[m as int].1);
        lemma_put_all_add::<F, Table<V>>(typed, placed_in_fields(fields, m), under(name, placed));
        let child = of(stripped(fields[m as int].1, join_path(path, name)), false)->0;
        let with = |c: V::Model| before.update(m as int, (name, c));
        assert(before =~= with(child));
        assert forall|c: V::Model, rest: Option<Seq<char>>, f: F| #[trigger]
            <Table<V> as Parcelable<F>>::attached(with(c), Some(below(name, rest)), f)
                == match V::attached(c, rest, f) {
                Ok(x) => Ok::<Seq<(Seq<char>, V::Model)>, ParcelFault>(with(x)),
                Err(fault) => Err(fault),
            } by {
            lemma_below(name, rest);
            lemma_key_position(with(c), name);
            assert(with(c)[m as int] == (name, c));
            assert forall|k: int| 0 <= k < m implies (#[trigger] with(c)[k]).0 != name by {
                assert(with(c)[k].0 == fields[k].0);
            }
            assert(key_position(with(c), name) == Some(m as int));
            match V::attached(c, rest, f) {
                Ok(x) => {
                    assert(with(c).update(m as int, (name, x)) =~= with(x));
                },
                Err(_) => {},
            }
        }
        lemma_put_all_child::<F, Table<V>, V>(before, child, with, name, placed);
        assert(keeps::<F, V>(of, fields[m as int].1, join_path(path, name)));
        assert(with(put_all::<F, V>(child, placed)) =~= mixed(n));
    }
}

/// A slot keeps its callable.
#[verifier::rlimit(40)]
pub proof fn lemma_slot_keeps<P: Provider>(raw: RawModel<P::Function>, path: Seq<char>)
    ensures
        keeps::<P::Function, BotFunction<P>>(
            |r: RawModel<P::Function>, live: bool| slot_of(r, live),
            raw,
            path,
        ),
{
    match raw {
        RawModel::Function(f) => {
            let placed = placed_in(raw);
            assert(placed.drop_last() =~= Seq::<Placed<P::Function>>::empty());
            assert(put_all::<P::Function, BotFunction<P>>(
                SlotModel::Placeholder(path),
                placed.drop_last(),
            ) == SlotModel::<P::Function>::Placeholder(path));
        },
        _ => {},
    }
}

/// A button keeps its callable.
#[verifier::rlimit(40)]
pub proof fn lemma_button_keeps<P: Provider>(raw: RawModel<P::Function>, path: Seq<char>)
    requires
        well_keyed(raw),
    ensures
        keeps::<P::Function, ButtonDefinition<P>>(
            |r: RawModel<P::Function>, live: bool| button_of(r, live),
            raw,
            path,
        ),
{
    match raw {
        RawModel::Function(f) => {
            lemma_slot_keeps::<P>(raw, path);
            let typed = ButtonModel::<P::Function>::Function(SlotModel::Placeholder(path));
            let placed = placed_in(raw);
            assert(placed.drop_last() =~= Seq::<Placed<P::Function>>::empty());
            assert(put_all::<P::Function, ButtonDefinition<P>>(typed, placed.drop_last())
                == typed);
        },
        RawModel::Object(fields) => {
            lemma_button_raw_stripped(raw, path);
            if button_of(raw, true) is Some {
                lemma_put_all_leaf_button::<P>(button_of(raw, true)->0, placed_in(raw));
            }
        },
        _ => {},
    }
}

/// Putting callables into a button that is written out changes nothing.
pub proof fn lemma_put_all_leaf_button<P: Provider>(
    model: ButtonModel<P::Function>,
    placed: Seq<Placed<P::Function>>,
)
    requires
        !(model is Function),
    ensures
        put_all::<P::Function, ButtonDefinition<P>>(model, placed) == model,
    decreases placed.len(),
{
    if placed.len() > 0 {
        lemma_put_all_leaf_button::<P>(model, placed.drop_last());
    }
}

/// The value of a field of an object whose callables have been taken out
/// is the value of the field, with its callables taken out.
pub proof fn lemma_field_stripped<F>(
    fields: Seq<(Seq<char>, RawModel<F>)>,
    path: Seq<char>,
    name: Seq<char>,
)
    ensures
        field_of(stripped(RawModel::Object(fields), path)->Object_0, name) == match field_of(
            fields,
            name,
        ) {
            Some(v) => Some(stripped(v, join_path(path, name))),
            None => None,
        },
{
    let plain = stripped(RawModel::Object(fields), path)->Object_0;
    lemma_field_stripped_from(fields, plain, path, name, 0);
    assert(fields.skip(0) =~= fields);
    assert(plain.skip(0) =~= plain);
}

/// The same, for the fields from the place `k` on.
pub proof fn lemma_field_stripped_from<F>(
    fields: Seq<(Seq<char>, RawModel<F>)>,
    plain: Seq<(Seq<char>, RawModel<F>)>,
    path: Seq<char>,
    name: Seq<char>,
    k: int,
)
    requires
        0 <= k <= fields.len(),
        plain.len() == fields.len(),
        forall|i: int|
            0 <= i < fields.len() ==> #[trigger] plain[i] == (
                fields[i].0,
                stripped(fields[i].1, join_path(path, fields[i].0)),
            ),
    ensures
        field_of(plain.skip(k), name) == match field_of(fields.skip(k), name) {
            Some(v) => Some(stripped(v, join_path(path, name))),
            None => None,
        },
    decreases fields.len() - k,
{
    if k < fields.len() {
        assert(fields.skip(k)[0] == fields[k]);
        assert(plain.skip(k)[0] == plain[k]);
        assert(fields.skip(k).skip(1) =~= fields.skip(k + 1));
        assert(plain.skip(k).skip(1) =~= plain.skip(k + 1));
        lemma_field_stripped_from(fields, plain, path, name, k + 1);
    }
}

/// A button in full is read from an object and from its plain data alike.
pub proof fn lemma_button_raw_stripped<F>(raw: RawModel<F>, path: Seq<char>)
    requires
        raw is Object,
    ensures
        button_of(stripped(raw, path), false) == button_of(raw, true),
{
    let fields = raw->Object_0;
    lemma_field_stripped(fields, path, "name"@);
    lemma_field_stripped(fields, path, "callback_name"@);
    match field_of(fields, "name"@) {
        Some(RawModel::Object(inner)) => {
            let at = join_path(path, "name"@);
            lemma_field_stripped(inner, at, "name"@);
            lemma_field_stripped(inner, at, "literal"@);
        },
        _ => {},
    }
}

/// Putting callables into a row of buttons is putting them into the list
/// of its buttons.
pub proof fn lemma_put_all_row<P: Provider>(
    buttons: Seq<ButtonModel<P::Function>>,
    placed: Seq<Placed<P::Function>>,
)
    ensures
        put_all::<P::Function, RowDefinition<P>>(RowModel::Buttons(buttons), placed)
            == RowModel::Buttons(
            put_all::<P::Function, Vec<ButtonDefinition<P>>>(buttons, placed),
        ),
    decreases placed.len(),
{
    if placed.len() > 0 {
        lemma_put_all_row::<P>(buttons, placed.drop_last());
    }
}

/// Putting callables into a keyboard of rows is putting them into the list
/// of its rows.
pub proof fn lemma_put_all_keyboard<P: Provider>(
    rows: Seq<RowModel<P::Function>>,
    placed: Seq<Placed<P::Function>>,
)
    ensures
        put_all::<P::Function, KeyboardDefinition<P>>(KeyboardModel::Rows(rows), placed)
            == KeyboardModel::Rows(put_all::<P::Function, Vec<RowDefinition<P>>>(rows, placed)),
    decreases placed.len(),
{
    if placed.len() > 0 {
        lemma_put_all_keyboard::<P>(rows, placed.drop_last());
    }
}

/// A row keeps its callables.
#[verifier::rlimit(40)]
pub proof fn lemma_row_keeps<P: Provider>(raw: RawModel<P::Function>, path: Seq<char>)
    requires
        well_keyed(raw),
    ensures
        keeps::<P::Function, RowDefinition<P>>(
            |r: RawModel<P::Function>, live: bool| row_of(r, live),
            raw,
            path,
        ),
{
    match raw {
        RawModel::Function(f) => {
            lemma_slot_keeps::<P>(raw, path);
            let typed = RowModel::<P::Function>::Function(SlotModel::Placeholder(path));
            let placed = placed_in(raw);
            assert(placed.drop_last() =~= Seq::<Placed<P::Function>>::empty());
            assert(put_all::<P::Function, RowDefinition<P>>(typed, placed.drop_last()) == typed);
        },
        RawModel::List(items) => {
            let of = |r: RawModel<P::Function>, live: bool| button_of(r, live);
            let plain = stripped(raw, path)->List_0;
            assert forall|i: int| 0 <= i < items.len() implies #[trigger] keeps::<
                P::Function,
                ButtonDefinition<P>,
            >(of, items[i], join_path(path, decimal(i as nat))) by {
                lemma_button_keeps::<P>(items[i], join_path(path, decimal(i as nat)));
            }
            if forall|i: int| 0 <= i < items.len() ==> button_of(#[trigger] items[i], true) is Some {
                assert forall|i: int| 0 <= i < plain.len() implies button_of(
                    #[trigger] plain[i],
                    false,
                ) is Some by {
                    assert(keeps::<P::Function, ButtonDefinition<P>>(
                        of,
                        items[i],
                        join_path(path, decimal(i as nat)),
                    ));
                }
                lemma_list_keeps::<P::Function, ButtonDefinition<P>>(of, items, path, items.len());
                let typed = Seq::new(
                    items.len(),
                    |i: int| of(stripped(items[i], join_path(path, decimal(i as nat))), false)->0,
                );
                assert(row_of(stripped(raw, path), false)->0->Buttons_0 =~= typed);
                lemma_put_all_row::<P>(typed, placed_in(raw));
                assert(row_of(raw, true)->0->Buttons_0 =~= Seq::new(
                    items.len(),
                    |i: int|
                        if i < items.len() {
                            of(items[i], true)->0
                        } else {
                            of(stripped(items[i], join_path(path, decimal(i as nat))), false)->0
                        },
                ));
            } else {
                let i = choose|i: int| 0 <= i < items.len() && !(button_of(#[trigger] items[i], true) is Some);
                assert(keeps::<P::Function, ButtonDefinition<P>>(
                    of,
                    items[i],
                    join_path(path, decimal(i as nat)),
                ));
                assert(button_of(plain[i], false) is None);
            }
        },
        _ => {},
    }
}

/// A keyboard keeps its callables.
#[verifier::rlimit(40)]
pub proof fn lemma_keyboard_keeps<P: Provider>(raw: RawModel<P::Function>, path: Seq<char>)
    requires
        well_keyed(raw),
    ensures
        keeps::<P::Function, KeyboardDefinition<P>>(
            |r: RawModel<P::Function>, live: bool| keyboard_of(r, live),
            raw,
            path,
        ),
{
    match raw {
        RawModel::Function(f) => {
            lemma_slot_keeps::<P>(raw, path);
            let typed = KeyboardModel::<P::Function>::Function(SlotModel::Placeholder(path));
            let placed = placed_in(raw);
            assert(placed.drop_last() =~= Seq::<Placed<P::Function>>::empty());
            assert(put_all::<P::Function, KeyboardDefinition<P>>(typed, placed.drop_last())
                == typed);
        },
        RawModel::List(items) => {
            let of = |r: RawModel<P::Function>, live: bool| row_of(r, live);
            let plain = stripped(raw, path)->List_0;
            assert forall|i: int| 0 <= i < items.len() implies #[trigger] keeps::<
                P::Function,
                RowDefinition<P>,
            >(of, items[i], join_path(path, decimal(i as nat))) by {
                lemma_row_keeps::<P>(items[i], join_path(path, decimal(i as nat)));
            }
            if forall|i: int| 0 <= i < items.len() ==> row_of(#[trigger] items[i], true) is Some {
                assert forall|i: int| 0 <= i < plain.len() implies row_of(
                    #[trigger] plain[i],
                    false,
                ) is Some by {
                    assert(keeps::<P::Function, RowDefinition<P>>(
                        of,
                        items[i],
                        join_path(path, decimal(i as nat)),
                    ));
                }
                lemma_list_keeps::<P::Function, RowDefinition<P>>(of, items, path, items.len());
                let typed = Seq::new(
                    items.len(),
                    |i: int| of(stripped(items[i], join_path(path, decimal(i as nat))), false)->0,
                );
                assert(keyboard_of(stripped(raw, path), false)->0->Rows_0 =~= typed);
                lemma_put_all_keyboard::<P>(typed, placed_in(raw));
                assert(keyboard_of(raw, true)->0->Rows_0 =~= Seq::new(
                    items.len(),
                    |i: int|
                        if i < items.len() {
                            of(items[i], true)->0
                        } else {
                            of(stripped(items[i], join_path(path, decimal(i as nat))), false)->0
                        },
                ));
            } else {
                let i = choose|i: int| 0 <= i < items.len() && !(row_of(#[trigger] items[i], true) is Some);
                assert(keeps::<P::Function, RowDefinition<P>>(
                    of,
                    items[i],
                    join_path(path, decimal(i as nat)),
                ));
                assert(row_of(plain[i], false) is None);
            }
        },
        _ => {},
    }
}

/// The value of a field is the value of the first field with its name.
pub proof fn lemma_field_position<F>(fields: Seq<(Seq<char>, RawModel<F>)>, name: Seq<char>)
    ensures
        field_of(fields, name) == match key_position(fields, name) {
            Some(i) => Some(fields[i].1),
            None => None,
        },
    decreases fields.len(),
{
    if fields.len() > 0 && fields[0].0 != name {
        lemma_field_position(fields.skip(1), name);
        lemma_key_position(fields.skip(1), name);
    }
}

/// Among distinct names, the field with a name is the first with it.
pub proof fn lemma_position_of<F>(fields: Seq<(Seq<char>, RawModel<F>)>, i: int)
    requires
        0 <= i < fields.len(),
        forall|a: int, b: int|
            0 <= a < b < fields.len() ==> (#[trigger] fields[a]).0 != (#[trigger] fields[b]).0,
    ensures
        key_position(fields, fields[i].0) == Some(i),
{
    lemma_key_position(fields, fields[i].0);
}

/// A field of plain data is read alike from an object and from the object
/// with its callables taken out; a field that may hold callables is the
/// field of the object, with its callables taken out under its path.
pub proof fn lemma_given_stripped<F>(
    fields: Seq<(Seq<char>, RawModel<F>)>,
    path: Seq<char>,
    name: Seq<char>,
)
    ensures
        ({
            let plain = stripped(RawModel::Object(fields), path)->Object_0;
            &&& given_field(plain, name) == match given_field(fields, name) {
                Some(v) => Some(stripped(v, join_path(path, name))),
                None => None,
            }
            &&& text_in(given_field(plain, name)) == text_in(given_field(fields, name))
            &&& bool_in(given_field(plain, name)) == bool_in(given_field(fields, name))
            &&& forall|low: int, high: int|
                int_in(given_field(plain, name), low, high) == int_in(
                    given_field(fields, name),
                    low,
                    high,
                )
        }),
{
    lemma_field_stripped(fields, path, name);
}

/// The names of the fields of a message differ from each other.
pub proof fn lemma_message_names()
    ensures
        "buttons"@ != "handler"@,
        "buttons"@ != "literal"@,
        "buttons"@ != "replace"@,
        "buttons"@ != "state"@,
        "buttons"@ != "meta"@,
        "handler"@ != "literal"@,
        "handler"@ != "replace"@,
        "handler"@ != "state"@,
        "handler"@ != "meta"@,
        "literal"@ != "replace"@,
        "literal"@ != "state"@,
        "literal"@ != "meta"@,
        "replace"@ != "state"@,
        "replace"@ != "meta"@,
        "state"@ != "meta"@,
{
    reveal_strlit("buttons");
    reveal_strlit("handler");
    reveal_strlit("literal");
    reveal_strlit("replace");
    reveal_strlit("state");
    reveal_strlit("meta");
    assert("buttons"@[0] == 'b');
    assert("handler"@[0] == 'h');
    assert("literal"@[0] == 'l');
    assert("replace"@[0] == 'r');
    assert("state"@[0] == 's');
    assert("meta"@[0] == 'm');
}

/// A message in which the callables of the first `n` fields of
/// `fields` have been put back: `direct` holds the parts with their live
/// callables, `typed` those read from the plain data.
pub open spec fn message_after<F>(
    fields: Seq<(Seq<char>, RawModel<F>)>,
    typed: MessageModel<F>,
    direct: MessageModel<F>,
    n: nat,
) -> MessageModel<F> {
    MessageModel {
        buttons: match key_position(fields, "buttons"@) {
            Some(i) => if i < n {
                direct.buttons
            } else {
                typed.buttons
            },
            None => typed.buttons,
        },
        handler: match key_position(fields, "handler"@) {
            Some(i) => if i < n {
                direct.handler
            } else {
                typed.handler
            },
            None => typed.handler,
        },
        ..typed
    }
}

/// A message hands a path below `buttons` to its keyboard.
pub proof fn lemma_message_buttons<P: Provider>(
    before: MessageModel<P::Function>,
    c: Option<KeyboardModel<P::Function>>,
    rest: Option<Seq<char>>,
    f: P::Function,
)
    requires
        is_name("buttons"@),
    ensures
        <BotMessage<P> as Parcelable<P::Function>>::attached(
            MessageModel { buttons: c, ..before },
            Some(below("buttons"@, rest)),
            f,
        ) == match <Option<KeyboardDefinition<P>> as Parcelable<P::Function>>::attached(c, rest, f) {
            Ok(m) => Ok::<MessageModel<P::Function>, ParcelFault>(
                MessageModel { buttons: m, ..before },
            ),
            Err(fault) => Err(fault),
        },
{
    lemma_below("buttons"@, rest);
    lemma_message_names();
}

/// A message hands a path below `handler` to its handler.
pub proof fn lemma_message_handler<P: Provider>(
    before: MessageModel<P::Function>,
    c: Option<SlotModel<P::Function>>,
    rest: Option<Seq<char>>,
    f: P::Function,
)
    requires
        is_name("handler"@),
    ensures
        <BotMessage<P> as Parcelable<P::Function>>::attached(
            MessageModel { handler: c, ..before },
            Some(below("handler"@, rest)),
            f,
        ) == match <Option<BotFunction<P>> as Parcelable<P::Function>>::attached(c, rest, f) {
            Ok(m) => Ok::<MessageModel<P::Function>, ParcelFault>(
                MessageModel { handler: m, ..before },
            ),
            Err(fault) => Err(fault),
        },
{
    lemma_below("handler"@, rest);
    lemma_message_names();
}

/// A message has no slot at or below any other name.
pub proof fn lemma_message_other<P: Provider>(
    model: MessageModel<P::Function>,
    name: Seq<char>,
    rest: Option<Seq<char>>,
    f: P::Function,
)
    requires
        is_name(name),
        name != "buttons"@,
        name != "handler"@,
    ensures
        <BotMessage<P> as Parcelable<P::Function>>::attached(model, Some(below(name, rest)), f) is Err,
{
    lemma_below(name, rest);
}

/// Putting back the callables of the field `buttons` of a message.
#[verifier::rlimit(40)]
pub proof fn lemma_message_step_buttons<P: Provider>(
    fields: Seq<(Seq<char>, RawModel<P::Function>)>,
    path: Seq<char>,
    typed: MessageModel<P::Function>,
    direct: MessageModel<P::Function>,
    m: nat,
)
    requires
        well_keyed(RawModel::Object(fields)),
        m < fields.len(),
        message_of(RawModel::Object(fields), true) == Some(direct),
        message_of(stripped(RawModel::Object(fields), path), false) == Some(typed),
        key_position(fields, fields[m as int].0) == Some(m as int),
        fields[m as int].0 == "buttons"@,
    ensures
        put_all::<P::Function, BotMessage<P>>(
            message_after(fields, typed, direct, m),
            under(fields[m as int].0, placed_in(fields[m as int].1)),
        ) == message_after(fields, typed, direct, (m + 1) as nat),
{
    let before = message_after(fields, typed, direct, m);
    let name = fields[m as int].0;
    let value = fields[m as int].1;
    let placed = placed_in(value);
    assert(is_name(name));
    lemma_message_names();
    lemma_key_position(fields, "buttons"@);
    lemma_key_position(fields, "handler"@);
    lemma_field_position(fields, name);
    lemma_given_stripped(fields, path, name);
    let with = |c: Option<KeyboardModel<P::Function>>| MessageModel { buttons: c, ..before };
    assert(before == with(typed.buttons));
    assert forall|c: Option<KeyboardModel<P::Function>>, rest: Option<Seq<char>>, f: P::Function| #[trigger]
        <BotMessage<P> as Parcelable<P::Function>>::attached(with(c), Some(below(name, rest)), f)
            == match <Option<KeyboardDefinition<P>> as Parcelable<P::Function>>::attached(c, rest, f) {
            Ok(x) => Ok::<MessageModel<P::Function>, ParcelFault>(with(x)),
            Err(fault) => Err(fault),
        } by {
        lemma_message_buttons::<P>(before, c, rest, f);
    }
    lemma_put_all_child::<P::Function, BotMessage<P>, Option<KeyboardDefinition<P>>>(
        before,
        typed.buttons,
        with,
        name,
        placed,
    );
    lemma_put_all_nothing::<P::Function, Option<KeyboardDefinition<P>>>(typed.buttons);
    lemma_put_all_option::<P::Function, KeyboardDefinition<P>>(typed.buttons, placed);
    lemma_keyboard_keeps::<P>(value, join_path(path, name));
    assert(with(direct.buttons) == message_after(fields, typed, direct, (m + 1) as nat));
}

/// Putting back the callables of the field `handler` of a message.
#[verifier::rlimit(40)]
pub proof fn lemma_message_step_handler<P: Provider>(
    fields: Seq<(Seq<char>, RawModel<P::Function>)>,
    path: Seq<char>,
    typed: MessageModel<P::Function>,
    direct: MessageModel<P::Function>,
    m: nat,
)
    requires
        well_keyed(RawModel::Object(fields)),
        m < fields.len(),
        message_of(RawModel::Object(fields), true) == Some(direct),
        message_of(stripped(RawModel::Object(fields), path), false) == Some(typed),
        key_position(fields, fields[m as int].0) == Some(m as int),
        fields[m as int].0 == "handler"@,
    ensures
        put_all::<P::Function, BotMessage<P>>(
            message_after(fields, typed, direct, m),
            under(fields[m as int].0, placed_in(fields[m as int].1)),
        ) == message_after(fields, typed, direct, (m + 1) as nat),
{
    let before = message_after(fields, typed, direct, m);
    let name = fields[m as int].0;
    let value = fields[m as int].1;
    let placed = placed_in(value);
    assert(is_name(name));
    lemma_message_names();
    lemma_key_position(fields, "buttons"@);
    lemma_key_position(fields, "handler"@);
    lemma_field_position(fields, name);
    lemma_given_stripped(fields, path, name);
    let with = |c: Option<SlotModel<P::Function>>| MessageModel { handler: c, ..before };
    assert(before == with(typed.handler));
    assert forall|c: Option<SlotModel<P::Function>>, rest: Option<Seq<char>>, f: P::Function| #[trigger]
        <BotMessage<P> as Parcelable<P::Function>>::attached(with(c), Some(below(name, rest)), f)
            == match <Option<BotFunction<P>> as Parcelable<P::Function>>::attached(c, rest, f) {
            Ok(x) => Ok::<MessageModel<P::Function>, ParcelFault>(with(x)),
            Err(fault) => Err(fault),
        } by {
        lemma_message_handler::<P>(before, c, rest, f);
    }
    lemma_put_all_child::<P::Function, BotMessage<P>, Option<BotFunction<P>>>(
        before,
        typed.handler,
        with,
        name,
        placed,
    );
    lemma_put_all_nothing::<P::Function, Option<BotFunction<P>>>(typed.handler);
    lemma_put_all_option::<P::Function, BotFunction<P>>(typed.handler, placed);
    lemma_slot_keeps::<P>(value, join_path(path, name));
    assert(with(direct.handler) == message_after(fields, typed, direct, (m + 1) as nat));
}

/// Putting back the callables of a field of a message that holds no slot.
#[verifier::rlimit(40)]
pub proof fn lemma_message_step_other<P: Provider>(
    fields: Seq<(Seq<char>, RawModel<P::Function>)>,
    path: Seq<char>,
    typed: MessageModel<P::Function>,
    direct: MessageModel<P::Function>,
    m: nat,
)
    requires
        well_keyed(RawModel::Object(fields)),
        m < fields.len(),
        message_of(RawModel::Object(fields), true) == Some(direct),
        message_of(stripped(RawModel::Object(fields), path), false) == Some(typed),
        key_position(fields, fields[m as int].0) == Some(m as int),
        fields[m as int].0 != "buttons"@,
        fields[m as int].0 != "handler"@,
    ensures
        put_all::<P::Function, BotMessage<P>>(
            message_after(fields, typed, direct, m),
            under(fields[m as int].0, placed_in(fields[m as int].1)),
        ) == message_after(fields, typed, direct, (m + 1) as nat),
{
    let before = message_after(fields, typed, direct, m);
    let name = fields[m as int].0;
    let value = fields[m as int].1;
    let placed = placed_in(value);
    assert(is_name(name));
    lemma_message_names();
    lemma_key_position(fields, "buttons"@);
    lemma_key_position(fields, "handler"@);
    assert forall|rest: Option<Seq<char>>, f: P::Function| #[trigger]
        <BotMessage<P> as Parcelable<P::Function>>::attached(before, Some(below(name, rest)), f)
            is Err by {
        lemma_message_other::<P>(before, name, rest, f);
    }
    lemma_put_all_nowhere::<P::Function, BotMessage<P>>(before, name, placed);
    assert(before == message_after(fields, typed, direct, (m + 1) as nat));
}

/// Putting back the callables of the field at the place `m` of a message.
pub proof fn lemma_message_step<P: Provider>(
    fields: Seq<(Seq<char>, RawModel<P::Function>)>,
    path: Seq<char>,
    typed: MessageModel<P::Function>,
    direct: MessageModel<P::Function>,
    m: nat,
)
    requires
        well_keyed(RawModel::Object(fields)),
        m < fields.len(),
        message_of(RawModel::Object(fields), true) == Some(direct),
        message_of(stripped(RawModel::Object(fields), path), false) == Some(typed),
        key_position(fields, fields[m as int].0) == Some(m as int),
    ensures
        put_all::<P::Function, BotMessage<P>>(
            message_after(fields, typed, direct, m),
            under(fields[m as int].0, placed_in(fields[m as int].1)),
        ) == message_after(fields, typed, direct, (m + 1) as nat),
{
    if fields[m as int].0 == "buttons"@ {
        lemma_message_step_buttons::<P>(fields, path, typed, direct, m);
    } else if fields[m as int].0 == "handler"@ {
        lemma_message_step_handler::<P>(fields, path, typed, direct, m);
    } else {
        lemma_message_step_other::<P>(fields, path, typed, direct, m);
    }
}

/// Putting back the callables of the first `n` fields of a message.
#[verifier::rlimit(40)]
pub proof fn lemma_message_fold<P: Provider>(
    fields: Seq<(Seq<char>, RawModel<P::Function>)>,
    path: Seq<char>,
    typed: MessageModel<P::Function>,
    direct: MessageModel<P::Function>,
    n: nat,
)
    requires
        well_keyed(RawModel::Object(fields)),
        n <= fields.len(),
        message_of(RawModel::Object(fields), true) == Some(direct),
        message_of(stripped(RawModel::Object(fields), path), false) == Some(typed),
    ensures
        put_all::<P::Function, BotMessage<P>>(typed, placed_in_fields(fields, n)) == message_after(
            fields,
            typed,
            direct,
            n,
        ),
    decreases n,
{
    if n == 0 {
        lemma_key_position(fields, "buttons"@);
        lemma_key_position(fields, "handler"@);
        assert(message_after(fields, typed, direct, 0) == typed);
    } else {
        let m = (n - 1) as nat;
        lemma_message_fold::<P>(fields, path, typed, direct, m);
        let name = fields[m as int].0;
        lemma_put_all_add::<P::Function, BotMessage<P>>(
            typed,
            placed_in_fields(fields, m),
            under(name, placed_in(fields[m as int].1)),
        );
        lemma_position_of(fields, m as int);
        lemma_message_step::<P>(fields, path, typed, direct, m);
    }
}

/// A message keeps its callables.
#[verifier::rlimit(40)]
pub proof fn lemma_message_keeps<P: Provider>(raw: RawModel<P::Function>, path: Seq<char>)
    requires
        well_keyed(raw),
    ensures
        keeps::<P::Function, BotMessage<P>>(
            |r: RawModel<P::Function>, live: bool| message_of(r, live),
            raw,
            path,
        ),
{
    match raw {
        RawModel::Object(fields) => {
            lemma_given_stripped(fields, path, "literal"@);
            lemma_given_stripped(fields, path, "replace"@);
            lemma_given_stripped(fields, path, "buttons"@);
            lemma_given_stripped(fields, path, "state"@);
            lemma_given_stripped(fields, path, "meta"@);
            lemma_given_stripped(fields, path, "handler"@);
            lemma_field_position(fields, "buttons"@);
            lemma_field_position(fields, "handler"@);
            lemma_key_position(fields, "buttons"@);
            lemma_key_position(fields, "handler"@);
            match given_field(fields, "buttons"@) {
                Some(v) => {
                    lemma_keyboard_keeps::<P>(v, join_path(path, "buttons"@));
                },
                None => {},
            }
            match given_field(fields, "handler"@) {
                Some(v) => {
                    lemma_slot_keeps::<P>(v, join_path(path, "handler"@));
                },
                None => {},
            }
            if message_of(raw, true) is Some {
                assert(message_of(stripped(raw, path), false) is Some);
                let typed = message_of(stripped(raw, path), false)->0;
                let direct = message_of(raw, true)->0;
                lemma_message_fold::<P>(fields, path, typed, direct, fields.len());
                assert(message_after(fields, typed, direct, fields.len()) == direct);
            } else {
                assert(message_of(stripped(raw, path), false) is None);
            }
        },
        _ => {},
    }
}

/// A table of messages keeps its callables.
#[verifier::rlimit(40)]
pub proof fn lemma_messages_keep<P: Provider>(raw: RawModel<P::Function>, path: Seq<char>)
    requires
        well_keyed(raw),
    ensures
        keeps::<P::Function, Table<BotMessage<P>>>(
            |r: RawModel<P::Function>, live: bool| messages_of(r, live),
            raw,
            path,
        ),
{
    match raw {
        RawModel::Object(fields) => {
            let of = |r: RawModel<P::Function>, live: bool| message_of(r, live);
            let plain = stripped(raw, path)->Object_0;
            assert forall|i: int| 0 <= i < fields.len() implies #[trigger] keeps::<
                P::Function,
                BotMessage<P>,
            >(of, fields[i].1, join_path(path, fields[i].0)) by {
                lemma_message_keeps::<P>(fields[i].1, join_path(path, fields[i].0));
            }
            assert(names_distinct(fields));
            assert(names_distinct(plain)) by {
                assert forall|i: int, j: int| 0 <= i < j < plain.len() implies (
                #[trigger] plain[i]).0 != (#[trigger] plain[j]).0 by {
                    assert(plain[i].0 == fields[i].0);
                    assert(plain[j].0 == fields[j].0);
                }
            }
            if forall|i: int|
                0 <= i < fields.len() ==> message_of((#[trigger] fields[i]).1, true) is Some {
                assert forall|i: int| 0 <= i < plain.len() implies message_of(
                    (#[trigger] plain[i]).1,
                    false,
                ) is Some by {
                    assert(keeps::<P::Function, BotMessage<P>>(
                        of,
                        fields[i].1,
                        join_path(path, fields[i].0),
                    ));
                }
                lemma_table_keeps::<P::Function, BotMessage<P>>(of, fields, path, fields.len());
                let typed = Seq::new(
                    fields.len(),
                    |i: int|
                        (
                            fields[i].0,
                            of(stripped(fields[i].1, join_path(path, fields[i].0)), false)->0,
                        ),
                );
                assert(messages_of(stripped(raw, path), false)->0 =~= typed);
                assert(messages_of(raw, true)->0 =~= Seq::new(
                    fields.len(),
                    |i: int|
                        (
                            fields[i].0,
                            if i < fields.len() {
                                of(fields[i].1, true)->0
                            } else {
                                of(stripped(fields[i].1, join_path(path, fields[i].0)), false)->0
                            },
                        ),
                ));
            } else {
                let i = choose|i: int|
                    0 <= i < fields.len() && !(message_of((#[trigger] fields[i]).1, true) is Some);
                assert(keeps::<P::Function, BotMessage<P>>(
                    of,
                    fields[i].1,
                    join_path(path, fields[i].0),
                ));
                assert(message_of(plain[i].1, false) is None);
            }
        },
        _ => {},
    }
}

/// The variants of the commands keep their callables.
#[verifier::rlimit(40)]
pub proof fn lemma_variants_keep<P: Provider>(raw: RawModel<P::Function>, path: Seq<char>)
    requires
        well_keyed(raw),
    ensures
        keeps::<P::Function, Table<Table<BotMessage<P>>>>(
            |r: RawModel<P::Function>, live: bool| variants_of(r, live),
            raw,
            path,
        ),
{
    match raw {
        RawModel::Object(fields) => {
            let of = |r: RawModel<P::Function>, live: bool| messages_of(r, live);
            let plain = stripped(raw, path)->Object_0;
            assert forall|i: int| 0 <= i < fields.len() implies #[trigger] keeps::<
                P::Function,
                Table<BotMessage<P>>,
            >(of, fields[i].1, join_path(path, fields[i].0)) by {
                lemma_messages_keep::<P>(fields[i].1, join_path(path, fields[i].0));
            }
            assert(names_distinct(fields));
            assert(names_distinct(plain)) by {
                assert forall|i: int, j: int| 0 <= i < j < plain.len() implies (
                #[trigger] plain[i]).0 != (#[trigger] plain[j]).0 by {
                    assert(plain[i].0 == fields[i].0);
                    assert(plain[j].0 == fields[j].0);
                }
            }
            if forall|i: int|
                0 <= i < fields.len() ==> messages_of((#[trigger] fields[i]).1, true) is Some {
                assert forall|i: int| 0 <= i < plain.len() implies messages_of(
                    (#[trigger] plain[i]).1,
                    false,
                ) is Some by {
                    assert(keeps::<P::Function, Table<BotMessage<P>>>(
                        of,
                        fields[i].1,
                        join_path(path, fields[i].0),
                    ));
                }
                lemma_table_keeps::<P::Function, Table<BotMessage<P>>>(
                    of,
                    fields,
                    path,
                    fields.len(),
                );
                let typed = Seq::new(
                    fields.len(),
                    |i: int|
                        (
                            fields[i].0,
                            of(stripped(fields[i].1, join_path(path, fields[i].0)), false)->0,
                        ),
                );
                assert(variants_of(stripped(raw, path), false)->0 =~= typed);
                assert(variants_of(raw, true)->0 =~= Seq::new(
                    fields.len(),
                    |i: int|
                        (
                            fields[i].0,
                            if i < fields.len() {
                                of(fields[i].1, true)->0
                            } else {
                                of(stripped(fields[i].1, join_path(path, fields[i].0)), false)->0
                            },
                        ),
                ));
            } else {
                let i = choose|i: int|
                    0 <= i < fields.len() && !(messages_of((#[trigger] fields[i]).1, true) is Some);
                assert(keeps::<P::Function, Table<BotMessage<P>>>(
                    of,
                    fields[i].1,
                    join_path(path, fields[i].0),
                ));
                assert(messages_of(plain[i].1, false) is None);
            }
        },
        _ => {},
    }
}

/// The names of the fields of a dialog differ from each other.
pub proof fn lemma_dialog_names()
    ensures
        "commands"@ != "buttons"@,
        "commands"@ != "stateful_msg_handlers"@,
        "commands"@ != "variants"@,
        "buttons"@ != "stateful_msg_handlers"@,
        "buttons"@ != "variants"@,
        "stateful_msg_handlers"@ != "variants"@,
{
    reveal_strlit("commands");
    reveal_strlit("buttons");
    reveal_strlit("stateful_msg_handlers");
    reveal_strlit("variants");
    assert("commands"@[0] == 'c');
    assert("buttons"@[0] == 'b');
    assert("stateful_msg_handlers"@[0] == 's');
    assert("variants"@[0] == 'v');
}

/// A dialog in which the callables of the first `n` fields of
/// `fields` have been put back: `direct` holds the parts with their live
/// callables, `typed` those read from the plain data.
pub open spec fn dialog_after<F>(
    fields: Seq<(Seq<char>, RawModel<F>)>,
    typed: DialogModel<F>,
    direct: DialogModel<F>,
    n: nat,
) -> DialogModel<F> {
    DialogModel {
        commands: match key_position(fields, "commands"@) {
            Some(i) => if i < n {
                direct.commands
            } else {
                typed.commands
            },
            None => typed.commands,
        },
        buttons: match key_position(fields, "buttons"@) {
            Some(i) => if i < n {
                direct.buttons
            } else {
                typed.buttons
            },
            None => typed.buttons,
        },
        stateful_msg_handlers: match key_position(fields, "stateful_msg_handlers"@) {
            Some(i) => if i < n {
                direct.stateful_msg_handlers
            } else {
                typed.stateful_msg_handlers
            },
            None => typed.stateful_msg_handlers,
        },
        variants: match key_position(fields, "variants"@) {
            Some(i) => if i < n {
                direct.variants
            } else {
                typed.variants
            },
            None => typed.variants,
        },
        ..typed
    }
}

/// A dialog hands a path below `commands` to the table of its commands.
pub proof fn lemma_dialog_commands<P: Provider>(
    before: DialogModel<P::Function>,
    c: MessagesModel<P::Function>,
    rest: Option<Seq<char>>,
    f: P::Function,
)
    requires
        is_name("commands"@),
    ensures
        <BotDialog<P> as Parcelable<P::Function>>::attached(
            DialogModel { commands: c, ..before },
            Some(below("commands"@, rest)),
            f,
        ) == match <Table<BotMessage<P>> as Parcelable<P::Function>>::attached(c, rest, f) {
            Ok(m) => Ok::<DialogModel<P::Function>, ParcelFault>(
                DialogModel { commands: m, ..before },
            ),
            Err(fault) => Err(fault),
        },
{
    lemma_below("commands"@, rest);
    lemma_dialog_names();
}

/// A dialog hands a path below `buttons` to the table of its buttons.
pub proof fn lemma_dialog_buttons<P: Provider>(
    before: DialogModel<P::Function>,
    c: MessagesModel<P::Function>,
    rest: Option<Seq<char>>,
    f: P::Function,
)
    requires
        is_name("buttons"@),
    ensures
        <BotDialog<P> as Parcelable<P::Function>>::attached(
            DialogModel { buttons: c, ..before },
            Some(below("buttons"@, rest)),
            f,
        ) == match <Table<BotMessage<P>> as Parcelable<P::Function>>::attached(c, rest, f) {
            Ok(m) => Ok::<DialogModel<P::Function>, ParcelFault>(
                DialogModel { buttons: m, ..before },
            ),
            Err(fault) => Err(fault),
        },
{
    lemma_below("buttons"@, rest);
    lemma_dialog_names();
}

/// A dialog hands a path below `stateful_msg_handlers` to the table of its handlers.
pub proof fn lemma_dialog_stateful_msg_handlers<P: Provider>(
    before: DialogModel<P::Function>,
    c: MessagesModel<P::Function>,
    rest: Option<Seq<char>>,
    f: P::Function,
)
    requires
        is_name("stateful_msg_handlers"@),
    ensures
        <BotDialog<P> as Parcelable<P::Function>>::attached(
            DialogModel { stateful_msg_handlers: c, ..before },
            Some(below("stateful_msg_handlers"@, rest)),
            f,
        ) == match <Table<BotMessage<P>> as Parcelable<P::Function>>::attached(c, rest, f) {
            Ok(m) => Ok::<DialogModel<P::Function>, ParcelFault>(
                DialogModel { stateful_msg_handlers: m, ..before },
            ),
            Err(fault) => Err(fault),
        },
{
    lemma_below("stateful_msg_handlers"@, rest);
    lemma_dialog_names();
}

/// A dialog hands a path below `variants` to the table of its variants.
pub proof fn lemma_dialog_variants<P: Provider>(
    before: DialogModel<P::Function>,
    c: Seq<(Seq<char>, MessagesModel<P::Function>)>,
    rest: Option<Seq<char>>,
    f: P::Function,
)
    requires
        is_name("variants"@),
    ensures
        <BotDialog<P> as Parcelable<P::Function>>::attached(
            DialogModel { variants: c, ..before },
            Some(below("variants"@, rest)),
            f,
        ) == match <Table<Table<BotMessage<P>>> as Parcelable<P::Function>>::attached(c, rest, f) {
            Ok(m) => Ok::<DialogModel<P::Function>, ParcelFault>(
                DialogModel { variants: m, ..before },
            ),
            Err(fault) => Err(fault),
        },
{
    lemma_below("variants"@, rest);
    lemma_dialog_names();
}

/// A dialog has no slot at or below any other name.
pub proof fn lemma_dialog_other<P: Provider>(
    model: DialogModel<P::Function>,
    name: Seq<char>,
    rest: Option<Seq<char>>,
    f: P::Function,
)
    requires
        is_name(name),
        name != "commands"@,
        name != "buttons"@,
        name != "stateful_msg_handlers"@,
        name != "variants"@,
    ensures
        <BotDialog<P> as Parcelable<P::Function>>::attached(model, Some(below(name, rest)), f) is Err,
{
    lemma_below(name, rest);
}

/// Putting back the callables of the field `commands` of a dialog.
#[verifier::rlimit(40)]
pub proof fn lemma_dialog_step_commands<P: Provider>(
    fields: Seq<(Seq<char>, RawModel<P::Function>)>,
    path: Seq<char>,
    typed: DialogModel<P::Function>,
    direct: DialogModel<P::Function>,
    m: nat,
)
    requires
        well_keyed(RawModel::Object(fields)),
        m < fields.len(),
        dialog_of(RawModel::Object(fields), true) == Some(direct),
        dialog_of(stripped(RawModel::Object(fields), path), false) == Some(typed),
        key_position(fields, fields[m as int].0) == Some(m as int),
        fields[m as int].0 == "commands"@,
    ensures
        put_all::<P::Function, BotDialog<P>>(
            dialog_after(fields, typed, direct, m),
            under(fields[m as int].0, placed_in(fields[m as int].1)),
        ) == dialog_after(fields, typed, direct, (m + 1) as nat),
{
    let before = dialog_after(fields, typed, direct, m);
    let name = fields[m as int].0;
    let value = fields[m as int].1;
    let placed = placed_in(value);
    assert(is_name(name));
    lemma_dialog_names();
    lemma_key_position(fields, "commands"@);
    lemma_key_position(fields, "buttons"@);
    lemma_key_position(fields, "stateful_msg_handlers"@);
    lemma_key_position(fields, "variants"@);
    lemma_field_position(fields, name);
    lemma_given_stripped(fields, path, name);
    let with = |c: MessagesModel<P::Function>| DialogModel { commands: c, ..before };
    assert(before == with(typed.commands));
    assert forall|c: MessagesModel<P::Function>, rest: Option<Seq<char>>, f: P::Function| #[trigger]
        <BotDialog<P> as Parcelable<P::Function>>::attached(with(c), Some(below(name, rest)), f)
            == match <Table<BotMessage<P>> as Parcelable<P::Function>>::attached(c, rest, f) {
            Ok(x) => Ok::<DialogModel<P::Function>, ParcelFault>(with(x)),
            Err(fault) => Err(fault),
        } by {
        lemma_dialog_commands::<P>(before, c, rest, f);
    }
    lemma_put_all_child::<P::Function, BotDialog<P>, Table<BotMessage<P>>>(
        before,
        typed.commands,
        with,
        name,
        placed,
    );
    lemma_put_all_nothing::<P::Function, Table<BotMessage<P>>>(typed.commands);
        match given_field(fields, name) {
            Some(v) => {
                lemma_messages_keep::<P>(v, join_path(path, name));
            },
            None => {},
        }
    assert(with(direct.commands) == dialog_after(fields, typed, direct, (m + 1) as nat));
}

/// Putting back the callables of the field `buttons` of a dialog.
#[verifier::rlimit(40)]
pub proof fn lemma_dialog_step_buttons<P: Provider>(
    fields: Seq<(Seq<char>, RawModel<P::Function>)>,
    path: Seq<char>,
    typed: DialogModel<P::Function>,
    direct: DialogModel<P::Function>,
    m: nat,
)
    requires
        well_keyed(RawModel::Object(fields)),
        m < fields.len(),
        dialog_of(RawModel::Object(fields), true) == Some(direct),
        dialog_of(stripped(RawModel::Object(fields), path), false) == Some(typed),
        key_position(fields, fields[m as int].0) == Some(m as int),
        fields[m as int].0 == "buttons"@,
    ensures
        put_all::<P::Function, BotDialog<P>>(
            dialog_after(fields, typed, direct, m),
            under(fields[m as int].0, placed_in(fields[m as int].1)),
        ) == dialog_after(fields, typed, direct, (m + 1) as nat),
{
    let before = dialog_after(fields, typed, direct, m);
    let name = fields[m as int].0;
    let value = fields[m as int].1;
    let placed = placed_in(value);
    assert(is_name(name));
    lemma_dialog_names();
    lemma_key_position(fields, "commands"@);
    lemma_key_position(fields, "buttons"@);
    lemma_key_position(fields, "stateful_msg_handlers"@);
    lemma_key_position(fields, "variants"@);
    lemma_field_position(fields, name);
    lemma_given_stripped(fields, path, name);
    let with = |c: MessagesModel<P::Function>| DialogModel { buttons: c, ..before };
    assert(before == with(typed.buttons));
    assert forall|c: MessagesModel<P::Function>, rest: Option<Seq<char>>, f: P::Function| #[trigger]
        <BotDialog<P> as Parcelable<P::Function>>::attached(with(c), Some(below(name, rest)), f)
            == match <Table<BotMessage<P>> as Parcelable<P::Function>>::attached(c, rest, f) {
            Ok(x) => Ok::<DialogModel<P::Function>, ParcelFault>(with(x)),
            Err(fault) => Err(fault),
        } by {
        lemma_dialog_buttons::<P>(before, c, rest, f);
    }
    lemma_put_all_child::<P::Function, BotDialog<P>, Table<BotMessage<P>>>(
        before,
        typed.buttons,
        with,
        name,
        placed,
    );
    lemma_put_all_nothing::<P::Function, Table<BotMessage<P>>>(typed.buttons);
        match given_field(fields, name) {
            Some(v) => {
                lemma_messages_keep::<P>(v, join_path(path, name));
            },
            None => {},
        }
    assert(with(direct.buttons) == dialog_after(fields, typed, direct, (m + 1) as nat));
}

/// Putting back the callables of the field `stateful_msg_handlers` of a dialog.
#[verifier::rlimit(40)]
pub proof fn lemma_dialog_step_stateful_msg_handlers<P: Provider>(
    fields: Seq<(Seq<char>, RawModel<P::Function>)>,
    path: Seq<char>,
    typed: DialogModel<P::Function>,
    direct: DialogModel<P::Function>,
    m: nat,
)
    requires
        well_keyed(RawModel::Object(fields)),
        m < fields.len(),
        dialog_of(RawModel::Object(fields), true) == Some(direct),
        dialog_of(stripped(RawModel::Object(fields), path), false) == Some(typed),
        key_position(fields, fields[m as int].0) == Some(m as int),
        fields[m as int].0 == "stateful_msg_handlers"@,
    ensures
        put_all::<P::Function, BotDialog<P>>(
            dialog_after(fields, typed, direct, m),
            under(fields[m as int].0, placed_in(fields[m as int].1)),
        ) == dialog_after(fields, typed, direct, (m + 1) as nat),
{
    let before = dialog_after(fields, typed, direct, m);
    let name = fields[m as int].0;
    let value = fields[m as int].1;
    let placed = placed_in(value);
    assert(is_name(name));
    lemma_dialog_names();
    lemma_key_position(fields, "commands"@);
    lemma_key_position(fields, "buttons"@);
    lemma_key_position(fields, "stateful_msg_handlers"@);
    lemma_key_position(fields, "variants"@);
    lemma_field_position(fields, name);
    lemma_given_stripped(fields, path, name);
    let with = |c: MessagesModel<P::Function>| DialogModel { stateful_msg_handlers: c, ..before };
    assert(before == with(typed.stateful_msg_handlers));
    assert forall|c: MessagesModel<P::Function>, rest: Option<Seq<char>>, f: P::Function| #[trigger]
        <BotDialog<P> as Parcelable<P::Function>>::attached(with(c), Some(below(name, rest)), f)
            == match <Table<BotMessage<P>> as Parcelable<P::Function>>::attached(c, rest, f) {
            Ok(x) => Ok::<DialogModel<P::Function>, ParcelFault>(with(x)),
            Err(fault) => Err(fault),
        } by {
        lemma_dialog_stateful_msg_handlers::<P>(before, c, rest, f);
    }
    lemma_put_all_child::<P::Function, BotDialog<P>, Table<BotMessage<P>>>(
        before,
        typed.stateful_msg_handlers,
        with,
        name,
        placed,
    );
    lemma_put_all_nothing::<P::Function, Table<BotMessage<P>>>(typed.stateful_msg_handlers);
        match given_field(fields, name) {
            Some(v) => {
                lemma_messages_keep::<P>(v, join_path(path, name));
            },
            None => {},
        }
    assert(with(direct.stateful_msg_handlers) == dialog_after(fields, typed, direct, (m + 1) as nat));
}

/// Putting back the callables of the field `variants` of a dialog.
#[verifier::rlimit(40)]
pub proof fn lemma_dialog_step_variants<P: Provider>(
    fields: Seq<(Seq<char>, RawModel<P::Function>)>,
    path: Seq<char>,
    typed: DialogModel<P::Function>,
    direct: DialogModel<P::Function>,
    m: nat,
)
    requires
        well_keyed(RawModel::Object(fields)),
        m < fields.len(),
        dialog_of(RawModel::Object(fields), true) == Some(direct),
        dialog_of(stripped(RawModel::Object(fields), path), false) == Some(typed),
        key_position(fields, fields[m as int].0) == Some(m as int),
        fields[m as int].0 == "variants"@,
    ensures
        put_all::<P::Function, BotDialog<P>>(
            dialog_after(fields, typed, direct, m),
            under(fields[m as int].0, placed_in(fields[m as int].1)),
        ) == dialog_after(fields, typed, direct, (m + 1) as nat),
{
    let before = dialog_after(fields, typed, direct, m);
    let name = fields[m as int].0;
    let value = fields[m as int].1;
    let placed = placed_in(value);
    assert(is_name(name));
    lemma_dialog_names();
    lemma_key_position(fields, "commands"@);
    lemma_key_position(fields, "buttons"@);
    lemma_key_position(fields, "stateful_msg_handlers"@);
    lemma_key_position(fields, "variants"@);
    lemma_field_position(fields, name);
    lemma_given_stripped(fields, path, name);
    let with = |c: Seq<(Seq<char>, MessagesModel<P::Function>)>| DialogModel { variants: c, ..before };
    assert(before == with(typed.variants));
    assert forall|c: Seq<(Seq<char>, MessagesModel<P::Function>)>, rest: Option<Seq<char>>, f: P::Function| #[trigger]
        <BotDialog<P> as Parcelable<P::Function>>::attached(with(c), Some(below(name, rest)), f)
            == match <Table<Table<BotMessage<P>>> as Parcelable<P::Function>>::attached(c, rest, f) {
            Ok(x) => Ok::<DialogModel<P::Function>, ParcelFault>(with(x)),
            Err(fault) => Err(fault),
        } by {
        lemma_dialog_variants::<P>(before, c, rest, f);
    }
    lemma_put_all_child::<P::Function, BotDialog<P>, Table<Table<BotMessage<P>>>>(
        before,
        typed.variants,
        with,
        name,
        placed,
    );
    lemma_put_all_nothing::<P::Function, Table<Table<BotMessage<P>>>>(typed.variants);
        match given_field(fields, name) {
            Some(v) => {
                lemma_variants_keep::<P>(v, join_path(path, name));
            },
            None => {},
        }
    assert(with(direct.variants) == dialog_after(fields, typed, direct, (m + 1) as nat));
}

/// Putting back the callables of a field of a dialog that holds no slot.
#[verifier::rlimit(40)]
pub proof fn lemma_dialog_step_other<P: Provider>(
    fields: Seq<(Seq<char>, RawModel<P::Function>)>,
    path: Seq<char>,
    typed: DialogModel<P::Function>,
    direct: DialogModel<P::Function>,
    m: nat,
)
    requires
        well_keyed(RawModel::Object(fields)),
        m < fields.len(),
        dialog_of(RawModel::Object(fields), true) == Some(direct),
        dialog_of(stripped(RawModel::Object(fields), path), false) == Some(typed),
        key_position(fields, fields[m as int].0) == Some(m as int),
        fields[m as int].0 != "commands"@,
        fields[m as int].0 != "buttons"@,
        fields[m as int].0 != "stateful_msg_handlers"@,
        fields[m as int].0 != "variants"@,
    ensures
        put_all::<P::Function, BotDialog<P>>(
            dialog_after(fields, typed, direct, m),
            under(fields[m as int].0, placed_in(fields[m as int].1)),
        ) == dialog_after(fields, typed, direct, (m + 1) as nat),
{
    let before = dialog_after(fields, typed, direct, m);
    let name = fields[m as int].0;
    let value = fields[m as int].1;
    let placed = placed_in(value);
    assert(is_name(name));
    lemma_dialog_names();
    lemma_key_position(fields, "commands"@);
    lemma_key_position(fields, "buttons"@);
    lemma_key_position(fields, "stateful_msg_handlers"@);
    lemma_key_position(fields, "variants"@);
    assert forall|rest: Option<Seq<char>>, f: P::Function| #[trigger]
        <BotDialog<P> as Parcelable<P::Function>>::attached(before, Some(below(name, rest)), f)
            is Err by {
        lemma_dialog_other::<P>(before, name, rest, f);
    }
    lemma_put_all_nowhere::<P::Function, BotDialog<P>>(before, name, placed);
    assert(before == dialog_after(fields, typed, direct, (m + 1) as nat));
}

/// Putting back the callables of the field at the place `m` of a dialog.
pub proof fn lemma_dialog_step<P: Provider>(
    fields: Seq<(Seq<char>, RawModel<P::Function>)>,
    path: Seq<char>,
    typed: DialogModel<P::Function>,
    direct: DialogModel<P::Function>,
    m: nat,
)
    requires
        well_keyed(RawModel::Object(fields)),
        m < fields.len(),
        dialog_of(RawModel::Object(fields), true) == Some(direct),
        dialog_of(stripped(RawModel::Object(fields), path), false) == Some(typed),
        key_position(fields, fields[m as int].0) == Some(m as int),
    ensures
        put_all::<P::Function, BotDialog<P>>(
            dialog_after(fields, typed, direct, m),
            under(fields[m as int].0, placed_in(fields[m as int].1)),
        ) == dialog_after(fields, typed, direct, (m + 1) as nat),
{
    if fields[m as int].0 == "commands"@ {
        lemma_dialog_step_commands::<P>(fields, path, typed, direct, m);
    } else if fields[m as int].0 == "buttons"@ {
        lemma_dialog_step_buttons::<P>(fields, path, typed, direct, m);
    } else if fields[m as int].0 == "stateful_msg_handlers"@ {
        lemma_dialog_step_stateful_msg_handlers::<P>(fields, path, typed, direct, m);
    } else if fields[m as int].0 == "variants"@ {
        lemma_dialog_step_variants::<P>(fields, path, typed, direct, m);
    } else {
        lemma_dialog_step_other::<P>(fields, path, typed, direct, m);
    }
}

/// Putting back the callables of the first `n` fields of a dialog.
#[verifier::rlimit(40)]
pub proof fn lemma_dialog_fold<P: Provider>(
    fields: Seq<(Seq<char>, RawModel<P::Function>)>,
    path: Seq<char>,
    typed: DialogModel<P::Function>,
    direct: DialogModel<P::Function>,
    n: nat,
)
    requires
        well_keyed(RawModel::Object(fields)),
        n <= fields.len(),
        dialog_of(RawModel::Object(fields), true) == Some(direct),
        dialog_of(stripped(RawModel::Object(fields), path), false) == Some(typed),
    ensures
        put_all::<P::Function, BotDialog<P>>(typed, placed_in_fields(fields, n)) == dialog_after(
            fields,
            typed,
            direct,
            n,
        ),
    decreases n,
{
    if n == 0 {
        lemma_key_position(fields, "commands"@);
        lemma_key_position(fields, "buttons"@);
        lemma_key_position(fields, "stateful_msg_handlers"@);
        lemma_key_position(fields, "variants"@);
        assert(dialog_after(fields, typed, direct, 0) == typed);
    } else {
        let m = (n - 1) as nat;
        lemma_dialog_fold::<P>(fields, path, typed, direct, m);
        let name = fields[m as int].0;
        lemma_put_all_add::<P::Function, BotDialog<P>>(
            typed,
            placed_in_fields(fields, m),
            under(name, placed_in(fields[m as int].1)),
        );
        lemma_position_of(fields, m as int);
        lemma_dialog_step::<P>(fields, path, typed, direct, m);
    }
}

/// A dialog keeps its callables.
#[verifier::rlimit(40)]
pub proof fn lemma_dialog_keeps<P: Provider>(raw: RawModel<P::Function>, path: Seq<char>)
    requires
        well_keyed(raw),
    ensures
        keeps::<P::Function, BotDialog<P>>(
            |r: RawModel<P::Function>, live: bool| dialog_of(r, live),
            raw,
            path,
        ),
{
    match raw {
        RawModel::Object(fields) => {
            lemma_given_stripped(fields, path, "commands"@);
            lemma_given_stripped(fields, path, "buttons"@);
            lemma_given_stripped(fields, path, "stateful_msg_handlers"@);
            lemma_given_stripped(fields, path, "variants"@);
            lemma_field_position(fields, "commands"@);
            lemma_field_position(fields, "buttons"@);
            lemma_field_position(fields, "stateful_msg_handlers"@);
            lemma_field_position(fields, "variants"@);
            lemma_key_position(fields, "commands"@);
            lemma_key_position(fields, "buttons"@);
            lemma_key_position(fields, "stateful_msg_handlers"@);
            lemma_key_position(fields, "variants"@);
            match given_field(fields, "commands"@) {
                Some(v) => {
                    lemma_messages_keep::<P>(v, join_path(path, "commands"@));
                },
                None => {},
            }
            match given_field(fields, "buttons"@) {
                Some(v) => {
                    lemma_messages_keep::<P>(v, join_path(path, "buttons"@));
                },
                None => {},
            }
            match given_field(fields, "stateful_msg_handlers"@) {
                Some(v) => {
                    lemma_messages_keep::<P>(v, join_path(path, "stateful_msg_handlers"@));
                },
                None => {},
            }
            match given_field(fields, "variants"@) {
                Some(v) => {
                    lemma_variants_keep::<P>(v, join_path(path, "variants"@));
                },
                None => {},
            }
            if dialog_of(raw, true) is Some {
                assert(dialog_of(stripped(raw, path), false) is Some);
                let typed = dialog_of(stripped(raw, path), false)->0;
                let direct = dialog_of(raw, true)->0;
                lemma_dialog_fold::<P>(fields, path, typed, direct, fields.len());
                assert(dialog_after(fields, typed, direct, fields.len()) == direct);
            } else {
                assert(dialog_of(stripped(raw, path), false) is None);
            }
        },
        _ => {},
    }
}

/// A value that may be missing, with its callables taken out.
pub open spec fn stripped_in<F>(field: Option<RawModel<F>>, path: Seq<char>) -> Option<
    RawModel<F>,
> {
    match field {
        Some(v) => Some(stripped(v, path)),
        None => None,
    }
}

/// The callables of a value that may be missing.
pub open spec fn placed_in_given<F>(field: Option<RawModel<F>>) -> Seq<Placed<F>> {
    match field {
        Some(v) => placed_in(v),
        None => Seq::empty(),
    }
}

/// Putting callables into a filter that is written out changes nothing.
pub proof fn lemma_put_all_leaf_filter<P: Provider>(
    model: FilterModel<P::Function>,
    placed: Seq<Placed<P::Function>>,
)
    requires
        !(model is BotFunction),
    ensures
        put_all::<P::Function, NotificationFilter<P>>(model, placed) == model,
    decreases placed.len(),
{
    if placed.len() > 0 {
        lemma_put_all_leaf_filter::<P>(model, placed.drop_last());
    }
}

/// Putting callables into a message that is written out changes nothing.
pub proof fn lemma_put_all_leaf_note<P: Provider>(
    model: NoteMessageModel<P::Function>,
    placed: Seq<Placed<P::Function>>,
)
    requires
        !(model is BotFunction),
    ensures
        put_all::<P::Function, NotificationMessage<P>>(model, placed) == model,
    decreases placed.len(),
{
    if placed.len() > 0 {
        lemma_put_all_leaf_note::<P>(model, placed.drop_last());
    }
}

/// A filter keeps its callable.
#[verifier::rlimit(40)]
pub proof fn lemma_filter_keeps<P: Provider>(field: Option<RawModel<P::Function>>, path: Seq<char>)
    ensures
        match filter_in(field, true) {
            Some(direct) => filter_in(stripped_in(field, path), false) matches Some(typed)
                && put_all::<P::Function, NotificationFilter<P>>(typed, placed_in_given(field))
                == direct,
            None => filter_in(stripped_in(field, path), false) is None,
        },
{
    match field {
        Some(RawModel::Function(f)) => {
            let typed = FilterModel::<P::Function>::BotFunction(SlotModel::Placeholder(path));
            let placed = placed_in(field->0);
            assert(placed.drop_last() =~= Seq::<Placed<P::Function>>::empty());
            assert(put_all::<P::Function, NotificationFilter<P>>(typed, placed.drop_last())
                == typed);
        },
        Some(RawModel::Object(fields)) => {
            lemma_given_stripped(fields, path, "random"@);
            if filter_in(field, true) is Some {
                lemma_put_all_leaf_filter::<P>(filter_in(field, true)->0, placed_in(field->0));
            }
        },
        Some(RawModel::Text(_)) => {
            if filter_in(field, true) is Some {
                lemma_put_all_leaf_filter::<P>(filter_in(field, true)->0, placed_in(field->0));
            }
        },
        _ => {},
    }
}

/// What a notification says keeps its callable.
#[verifier::rlimit(40)]
pub proof fn lemma_note_message_keeps<P: Provider>(raw: RawModel<P::Function>, path: Seq<char>)
    ensures
        keeps::<P::Function, NotificationMessage<P>>(
            |r: RawModel<P::Function>, live: bool| note_message_of(r, live),
            raw,
            path,
        ),
{
    match raw {
        RawModel::Function(f) => {
            let typed = NoteMessageModel::<P::Function>::BotFunction(SlotModel::Placeholder(path));
            let placed = placed_in(raw);
            assert(placed.drop_last() =~= Seq::<Placed<P::Function>>::empty());
            assert(put_all::<P::Function, NotificationMessage<P>>(typed, placed.drop_last())
                == typed);
        },
        RawModel::Object(fields) => {
            lemma_given_stripped(fields, path, "literal"@);
            lemma_given_stripped(fields, path, "text"@);
            if note_message_of(raw, true) is Some {
                lemma_put_all_leaf_note::<P>(note_message_of(raw, true)->0, placed_in(raw));
            }
        },
        _ => {},
    }
}

/// A firing time is read alike from a value and from the value with its
/// callables taken out.
pub proof fn lemma_time_stripped<F>(raw: RawModel<F>, path: Seq<char>)
    ensures
        time_of(stripped(raw, path)) == time_of(raw),
{
    match raw {
        RawModel::Object(fields) => {
            lemma_given_stripped(fields, path, "hour"@);
            lemma_given_stripped(fields, path, "minutes"@);
            lemma_given_stripped(fields, path, "delta_hours"@);
            lemma_given_stripped(fields, path, "delta_minutes"@);
        },
        _ => {},
    }
}

/// The names of the fields of a rule differ from each other.
pub proof fn lemma_notification_names()
    ensures
        "filter"@ != "message"@,
        "filter"@ != "time"@,
        "message"@ != "time"@,
{
    reveal_strlit("filter");
    reveal_strlit("message");
    reveal_strlit("time");
    assert("filter"@[0] == 'f');
    assert("message"@[0] == 'm');
    assert("time"@[0] == 't');
}

/// A rule in which the callables of the first `n` fields of
/// `fields` have been put back: `direct` holds the parts with their live
/// callables, `typed` those read from the plain data.
pub open spec fn notification_after<F>(
    fields: Seq<(Seq<char>, RawModel<F>)>,
    typed: NotificationModel<F>,
    direct: NotificationModel<F>,
    n: nat,
) -> NotificationModel<F> {
    NotificationModel {
        filter: match key_position(fields, "filter"@) {
            Some(i) => if i < n {
                direct.filter
            } else {
                typed.filter
            },
            None => typed.filter,
        },
        message: match key_position(fields, "message"@) {
            Some(i) => if i < n {
                direct.message
            } else {
                typed.message
            },
            None => typed.message,
        },
        ..typed
    }
}

/// A rule hands a path below `filter` to its filter.
pub proof fn lemma_notification_filter<P: Provider>(
    before: NotificationModel<P::Function>,
    c: FilterModel<P::Function>,
    rest: Option<Seq<char>>,
    f: P::Function,
)
    requires
        is_name("filter"@),
    ensures
        <BotNotification<P> as Parcelable<P::Function>>::attached(
            NotificationModel { filter: c, ..before },
            Some(below("filter"@, rest)),
            f,
        ) == match <NotificationFilter<P> as Parcelable<P::Function>>::attached(c, rest, f) {
            Ok(m) => Ok::<NotificationModel<P::Function>, ParcelFault>(
                NotificationModel { filter: m, ..before },
            ),
            Err(fault) => Err(fault),
        },
{
    lemma_below("filter"@, rest);
    lemma_notification_names();
}

/// A rule hands a path below `message` to its message.
pub proof fn lemma_notification_message<P: Provider>(
    before: NotificationModel<P::Function>,
    c: NoteMessageModel<P::Function>,
    rest: Option<Seq<char>>,
    f: P::Function,
)
    requires
        is_name("message"@),
    ensures
        <BotNotification<P> as Parcelable<P::Function>>::attached(
            NotificationModel { message: c, ..before },
            Some(below("message"@, rest)),
            f,
        ) == match <NotificationMessage<P> as Parcelable<P::Function>>::attached(c, rest, f) {
            Ok(m) => Ok::<NotificationModel<P::Function>, ParcelFault>(
                NotificationModel { message: m, ..before },
            ),
            Err(fault) => Err(fault),
        },
{
    lemma_below("message"@, rest);
    lemma_notification_names();
}

/// A rule has no slot at or below any other name.
pub proof fn lemma_notification_other<P: Provider>(
    model: NotificationModel<P::Function>,
    name: Seq<char>,
    rest: Option<Seq<char>>,
    f: P::Function,
)
    requires
        is_name(name),
        name != "filter"@,
        name != "message"@,
    ensures
        <BotNotification<P> as Parcelable<P::Function>>::attached(model, Some(below(name, rest)), f) is Err,
{
    lemma_below(name, rest);
}

/// Putting back the callables of the field `filter` of a rule.
#[verifier::rlimit(40)]
pub proof fn lemma_notification_step_filter<P: Provider>(
    fields: Seq<(Seq<char>, RawModel<P::Function>)>,
    path: Seq<char>,
    typed: NotificationModel<P::Function>,
    direct: NotificationModel<P::Function>,
    m: nat,
)
    requires
        well_keyed(RawModel::Object(fields)),
        m < fields.len(),
        notification_of(RawModel::Object(fields), true) == Some(direct),
        notification_of(stripped(RawModel::Object(fields), path), false) == Some(typed),
        key_position(fields, fields[m as int].0) == Some(m as int),
        fields[m as int].0 == "filter"@,
    ensures
        put_all::<P::Function, BotNotification<P>>(
            notification_after(fields, typed, direct, m),
            under(fields[m as int].0, placed_in(fields[m as int].1)),
        ) == notification_after(fields, typed, direct, (m + 1) as nat),
{
    let before = notification_after(fields, typed, direct, m);
    let name = fields[m as int].0;
    let value = fields[m as int].1;
    let placed = placed_in(value);
    assert(is_name(name));
    lemma_notification_names();
    lemma_key_position(fields, "filter"@);
    lemma_key_position(fields, "message"@);
    lemma_field_position(fields, name);
    lemma_given_stripped(fields, path, name);
    let with = |c: FilterModel<P::Function>| NotificationModel { filter: c, ..before };
    assert(before == with(typed.filter));
    assert forall|c: FilterModel<P::Function>, rest: Option<Seq<char>>, f: P::Function| #[trigger]
        <BotNotification<P> as Parcelable<P::Function>>::attached(with(c), Some(below(name, rest)), f)
            == match <NotificationFilter<P> as Parcelable<P::Function>>::attached(c, rest, f) {
            Ok(x) => Ok::<NotificationModel<P::Function>, ParcelFault>(with(x)),
            Err(fault) => Err(fault),
        } by {
        lemma_notification_filter::<P>(before, c, rest, f);
    }
    lemma_put_all_child::<P::Function, BotNotification<P>, NotificationFilter<P>>(
        before,
        typed.filter,
        with,
        name,
        placed,
    );
    lemma_put_all_nothing::<P::Function, NotificationFilter<P>>(typed.filter);
        lemma_filter_keeps::<P>(given_field(fields, name), join_path(path, name));
    assert(with(direct.filter) == notification_after(fields, typed, direct, (m + 1) as nat));
}

/// Putting back the callables of the field `message` of a rule.
#[verifier::rlimit(40)]
pub proof fn lemma_notification_step_message<P: Provider>(
    fields: Seq<(Seq<char>, RawModel<P::Function>)>,
    path: Seq<char>,
    typed: NotificationModel<P::Function>,
    direct: NotificationModel<P::Function>,
    m: nat,
)
    requires
        well_keyed(RawModel::Object(fields)),
        m < fields.len(),
        notification_of(RawModel::Object(fields), true) == Some(direct),
        notification_of(stripped(RawModel::Object(fields), path), false) == Some(typed),
        key_position(fields, fields[m as int].0) == Some(m as int),
        fields[m as int].0 == "message"@,
    ensures
        put_all::<P::Function, BotNotification<P>>(
            notification_after(fields, typed, direct, m),
            under(fields[m as int].0, placed_in(fields[m as int].1)),
        ) == notification_after(fields, typed, direct, (m + 1) as nat),
{
    let before = notification_after(fields, typed, direct, m);
    let name = fields[m as int].0;
    let value = fields[m as int].1;
    let placed = placed_in(value);
    assert(is_name(name));
    lemma_notification_names();
    lemma_key_position(fields, "filter"@);
    lemma_key_position(fields, "message"@);
    lemma_field_position(fields, name);
    lemma_given_stripped(fields, path, name);
    let with = |c: NoteMessageModel<P::Function>| NotificationModel { message: c, ..before };
    assert(before == with(typed.message));
    assert forall|c: NoteMessageModel<P::Function>, rest: Option<Seq<char>>, f: P::Function| #[trigger]
        <BotNotification<P> as Parcelable<P::Function>>::attached(with(c), Some(below(name, rest)), f)
            == match <NotificationMessage<P> as Parcelable<P::Function>>::attached(c, rest, f) {
            Ok(x) => Ok::<NotificationModel<P::Function>, ParcelFault>(with(x)),
            Err(fault) => Err(fault),
        } by {
        lemma_notification_message::<P>(before, c, rest, f);
    }
    lemma_put_all_child::<P::Function, BotNotification<P>, NotificationMessage<P>>(
        before,
        typed.message,
        with,
        name,
        placed,
    );
    lemma_put_all_nothing::<P::Function, NotificationMessage<P>>(typed.message);
        lemma_note_message_keeps::<P>(value, join_path(path, name));
    assert(with(direct.message) == notification_after(fields, typed, direct, (m + 1) as nat));
}

/// Putting back the callables of a field of a rule that holds no slot.
#[verifier::rlimit(40)]
pub proof fn lemma_notification_step_other<P: Provider>(
    fields: Seq<(Seq<char>, RawModel<P::Function>)>,
    path: Seq<char>,
    typed: NotificationModel<P::Function>,
    direct: NotificationModel<P::Function>,
    m: nat,
)
    requires
        well_keyed(RawModel::Object(fields)),
        m < fields.len(),
        notification_of(RawModel::Object(fields), true) == Some(direct),
        notification_of(stripped(RawModel::Object(fields), path), false) == Some(typed),
        key_position(fields, fields[m as int].0) == Some(m as int),
        fields[m as int].0 != "filter"@,
        fields[m as int].0 != "message"@,
    ensures
        put_all::<P::Function, BotNotification<P>>(
            notification_after(fields, typed, direct, m),
            under(fields[m as int].0, placed_in(fields[m as int].1)),
        ) == notification_after(fields, typed, direct, (m + 1) as nat),
{
    let before = notification_after(fields, typed, direct, m);
    let name = fields[m as int].0;
    let value = fields[m as int].1;
    let placed = placed_in(value);
    assert(is_name(name));
    lemma_notification_names();
    lemma_key_position(fields, "filter"@);
    lemma_key_position(fields, "message"@);
    assert forall|rest: Option<Seq<char>>, f: P::Function| #[trigger]
        <BotNotification<P> as Parcelable<P::Function>>::attached(before, Some(below(name, rest)), f)
            is Err by {
        lemma_notification_other::<P>(before, name, rest, f);
    }
    lemma_put_all_nowhere::<P::Function, BotNotification<P>>(before, name, placed);
    assert(before == notification_after(fields, typed, direct, (m + 1) as nat));
}

/// Putting back the callables of the field at the place `m` of a rule.
pub proof fn lemma_notification_step<P: Provider>(
    fields: Seq<(Seq<char>, RawModel<P::Function>)>,
    path: Seq<char>,
    typed: NotificationModel<P::Function>,
    direct: NotificationModel<P::Function>,
    m: nat,
)
    requires
        well_keyed(RawModel::Object(fields)),
        m < fields.len(),
        notification_of(RawModel::Object(fields), true) == Some(direct),
        notification_of(stripped(RawModel::Object(fields), path), false) == Some(typed),
        key_position(fields, fields[m as int].0) == Some(m as int),
    ensures
        put_all::<P::Function, BotNotification<P>>(
            notification_after(fields, typed, direct, m),
            under(fields[m as int].0, placed_in(fields[m as int].1)),
        ) == notification_after(fields, typed, direct, (m + 1) as nat),
{
    if fields[m as int].0 == "filter"@ {
        lemma_notification_step_filter::<P>(fields, path, typed, direct, m);
    } else if fields[m as int].0 == "message"@ {
        lemma_notification_step_message::<P>(fields, path, typed, direct, m);
    } else {
        lemma_notification_step_other::<P>(fields, path, typed, direct, m);
    }
}

/// Putting back the callables of the first `n` fields of a rule.
#[verifier::rlimit(40)]
pub proof fn lemma_notification_fold<P: Provider>(
    fields: Seq<(Seq<char>, RawModel<P::Function>)>,
    path: Seq<char>,
    typed: NotificationModel<P::Function>,
    direct: NotificationModel<P::Function>,
    n: nat,
)
    requires
        well_keyed(RawModel::Object(fields)),
        n <= fields.len(),
        notification_of(RawModel::Object(fields), true) == Some(direct),
        notification_of(stripped(RawModel::Object(fields), path), false) == Some(typed),
    ensures
        put_all::<P::Function, BotNotification<P>>(typed, placed_in_fields(fields, n)) == notification_after(
            fields,
            typed,
            direct,
            n,
        ),
    decreases n,
{
    if n == 0 {
        lemma_key_position(fields, "filter"@);
        lemma_key_position(fields, "message"@);
        assert(notification_after(fields, typed, direct, 0) == typed);
    } else {
        let m = (n - 1) as nat;
        lemma_notification_fold::<P>(fields, path, typed, direct, m);
        let name = fields[m as int].0;
        lemma_put_all_add::<P::Function, BotNotification<P>>(
            typed,
            placed_in_fields(fields, m),
            under(name, placed_in(fields[m as int].1)),
        );
        lemma_position_of(fields, m as int);
        lemma_notification_step::<P>(fields, path, typed, direct, m);
    }
}

/// A rule keeps its callables.
#[verifier::rlimit(40)]
pub proof fn lemma_notification_keeps<P: Provider>(raw: RawModel<P::Function>, path: Seq<char>)
    requires
        well_keyed(raw),
    ensures
        keeps::<P::Function, BotNotification<P>>(
            |r: RawModel<P::Function>, live: bool| notification_of(r, live),
            raw,
            path,
        ),
{
    match raw {
        RawModel::Object(fields) => {
            lemma_given_stripped(fields, path, "time"@);
            lemma_given_stripped(fields, path, "filter"@);
            lemma_given_stripped(fields, path, "message"@);
            lemma_key_position(fields, "filter"@);
            lemma_key_position(fields, "message"@);
            lemma_filter_keeps::<P>(given_field(fields, "filter"@), join_path(path, "filter"@));
            match given_field(fields, "time"@) {
                Some(v) => {
                    lemma_time_stripped(v, join_path(path, "time"@));
                },
                None => {},
            }
            match given_field(fields, "message"@) {
                Some(v) => {
                    lemma_note_message_keeps::<P>(v, join_path(path, "message"@));
                },
                None => {},
            }
            if notification_of(raw, true) is Some {
                assert(notification_of(stripped(raw, path), false) is Some);
                let typed = notification_of(stripped(raw, path), false)->0;
                let direct = notification_of(raw, true)->0;
                lemma_notification_fold::<P>(fields, path, typed, direct, fields.len());
                lemma_field_position(fields, "filter"@);
                lemma_field_position(fields, "message"@);
                assert(typed.time == direct.time);
                assert(notification_after(fields, typed, direct, fields.len()).filter
                    == direct.filter);
                assert(notification_after(fields, typed, direct, fields.len()).message
                    == direct.message);
                assert(notification_after(fields, typed, direct, fields.len()) == direct);
            } else {
                assert(notification_of(stripped(raw, path), false) is None);
            }
        },
        _ => {},
    }
}

/// The list of the rules keeps its callables.
#[verifier::rlimit(40)]
pub proof fn lemma_notifications_keep<P: Provider>(
    field: Option<RawModel<P::Function>>,
    path: Seq<char>,
)
    requires
        field matches Some(v) ==> well_keyed(v),
    ensures
        match notifications_in(field, true) {
            Some(direct) => notifications_in(stripped_in(field, path), false) matches Some(typed)
                && put_all::<P::Function, Vec<BotNotification<P>>>(typed, placed_in_given(field))
                == direct,
            None => notifications_in(stripped_in(field, path), false) is None,
        },
{
    match field {
        Some(RawModel::List(items)) => {
            let raw = field->0;
            let of = |r: RawModel<P::Function>, live: bool| notification_of(r, live);
            let plain = stripped(raw, path)->List_0;
            assert forall|i: int| 0 <= i < items.len() implies #[trigger] keeps::<
                P::Function,
                BotNotification<P>,
            >(of, items[i], join_path(path, decimal(i as nat))) by {
                lemma_notification_keeps::<P>(items[i], join_path(path, decimal(i as nat)));
            }
            if forall|i: int|
                0 <= i < items.len() ==> notification_of(#[trigger] items[i], true) is Some {
                assert forall|i: int| 0 <= i < plain.len() implies notification_of(
                    #[trigger] plain[i],
                    false,
                ) is Some by {
                    assert(keeps::<P::Function, BotNotification<P>>(
                        of,
                        items[i],
                        join_path(path, decimal(i as nat)),
                    ));
                }
                lemma_list_keeps::<P::Function, BotNotification<P>>(of, items, path, items.len());
                let typed = Seq::new(
                    items.len(),
                    |i: int| of(stripped(items[i], join_path(path, decimal(i as nat))), false)->0,
                );
                assert(notifications_in(stripped_in(field, path), false)->0 =~= typed);
                assert(notifications_in(field, true)->0 =~= Seq::new(
                    items.len(),
                    |i: int|
                        if i < items.len() {
                            of(items[i], true)->0
                        } else {
                            of(stripped(items[i], join_path(path, decimal(i as nat))), false)->0
                        },
                ));
            } else {
                let i = choose|i: int|
                    0 <= i < items.len() && !(notification_of(#[trigger] items[i], true) is Some);
                assert(keeps::<P::Function, BotNotification<P>>(
                    of,
                    items[i],
                    join_path(path, decimal(i as nat)),
                ));
                assert(notification_of(plain[i], false) is None);
            }
        },
        Some(_) => {},
        None => {
            lemma_put_all_nothing::<P::Function, Vec<BotNotification<P>>>(Seq::empty());
        },
    }
}

/// The names of the fields of a configuration differ from each other.
pub proof fn lemma_config_names()
    ensures
        "dialog"@ != "notifications"@,
        "dialog"@ != "config"@,
        "notifications"@ != "config"@,
{
    reveal_strlit("dialog");
    reveal_strlit("notifications");
    reveal_strlit("config");
    assert("dialog"@[0] == 'd');
    assert("notifications"@[0] == 'n');
    assert("config"@[0] == 'c');
}

/// A configuration in which the callables of the first `n` fields of
/// `fields` have been put back: `direct` holds the parts with their live
/// callables, `typed` those read from the plain data.
pub open spec fn config_after<F>(
    fields: Seq<(Seq<char>, RawModel<F>)>,
    typed: ConfigModel<F>,
    direct: ConfigModel<F>,
    n: nat,
) -> ConfigModel<F> {
    ConfigModel {
        dialog: match key_position(fields, "dialog"@) {
            Some(i) => if i < n {
                direct.dialog
            } else {
                typed.dialog
            },
            None => typed.dialog,
        },
        notifications: match key_position(fields, "notifications"@) {
            Some(i) => if i < n {
                direct.notifications
            } else {
                typed.notifications
            },
            None => typed.notifications,
        },
        ..typed
    }
}

/// A configuration hands a path below `dialog` to its dialog.
pub proof fn lemma_config_dialog<P: Provider>(
    before: ConfigModel<P::Function>,
    c: DialogModel<P::Function>,
    rest: Option<Seq<char>>,
    f: P::Function,
)
    requires
        is_name("dialog"@),
    ensures
        <RunnerConfig<P> as Parcelable<P::Function>>::attached(
            ConfigModel { dialog: c, ..before },
            Some(below("dialog"@, rest)),
            f,
        ) == match <BotDialog<P> as Parcelable<P::Function>>::attached(c, rest, f) {
            Ok(m) => Ok::<ConfigModel<P::Function>, ParcelFault>(
                ConfigModel { dialog: m, ..before },
            ),
            Err(fault) => Err(fault),
        },
{
    lemma_below("dialog"@, rest);
    lemma_config_names();
}

/// A configuration hands a path below `notifications` to the list of its rules.
pub proof fn lemma_config_notifications<P: Provider>(
    before: ConfigModel<P::Function>,
    c: Seq<NotificationModel<P::Function>>,
    rest: Option<Seq<char>>,
    f: P::Function,
)
    requires
        is_name("notifications"@),
    ensures
        <RunnerConfig<P> as Parcelable<P::Function>>::attached(
            ConfigModel { notifications: c, ..before },
            Some(below("notifications"@, rest)),
            f,
        ) == match <Vec<BotNotification<P>> as Parcelable<P::Function>>::attached(c, rest, f) {
            Ok(m) => Ok::<ConfigModel<P::Function>, ParcelFault>(
                ConfigModel { notifications: m, ..before },
            ),
            Err(fault) => Err(fault),
        },
{
    lemma_below("notifications"@, rest);
    lemma_config_names();
}

/// A configuration has no slot at or below any other name.
pub proof fn lemma_config_other<P: Provider>(
    model: ConfigModel<P::Function>,
    name: Seq<char>,
    rest: Option<Seq<char>>,
    f: P::Function,
)
    requires
        is_name(name),
        name != "dialog"@,
        name != "notifications"@,
    ensures
        <RunnerConfig<P> as Parcelable<P::Function>>::attached(model, Some(below(name, rest)), f) is Err,
{
    lemma_below(name, rest);
}

/// Putting back the callables of the field `dialog` of a configuration.
#[verifier::rlimit(40)]
pub proof fn lemma_config_step_dialog<P: Provider>(
    fields: Seq<(Seq<char>, RawModel<P::Function>)>,
    path: Seq<char>,
    created_at: Timestamp,
    typed: ConfigModel<P::Function>,
    direct: ConfigModel<P::Function>,
    m: nat,
)
    requires
        well_keyed(RawModel::Object(fields)),
        m < fields.len(),
        runner_config_of(RawModel::Object(fields), created_at, true) == Ok::<ConfigModel<P::Function>, LoadError>(direct),
        runner_config_of(stripped(RawModel::Object(fields), path), created_at, false) == Ok::<ConfigModel<P::Function>, LoadError>(typed),
        key_position(fields, fields[m as int].0) == Some(m as int),
        fields[m as int].0 == "dialog"@,
    ensures
        put_all::<P::Function, RunnerConfig<P>>(
            config_after(fields, typed, direct, m),
            under(fields[m as int].0, placed_in(fields[m as int].1)),
        ) == config_after(fields, typed, direct, (m + 1) as nat),
{
    let before = config_after(fields, typed, direct, m);
    let name = fields[m as int].0;
    let value = fields[m as int].1;
    let placed = placed_in(value);
    assert(is_name(name));
    lemma_config_names();
    lemma_key_position(fields, "dialog"@);
    lemma_key_position(fields, "notifications"@);
    lemma_field_position(fields, name);
    lemma_given_stripped(fields, path, name);
    let with = |c: DialogModel<P::Function>| ConfigModel { dialog: c, ..before };
    assert(before == with(typed.dialog));
    assert forall|c: DialogModel<P::Function>, rest: Option<Seq<char>>, f: P::Function| #[trigger]
        <RunnerConfig<P> as Parcelable<P::Function>>::attached(with(c), Some(below(name, rest)), f)
            == match <BotDialog<P> as Parcelable<P::Function>>::attached(c, rest, f) {
            Ok(x) => Ok::<ConfigModel<P::Function>, ParcelFault>(with(x)),
            Err(fault) => Err(fault),
        } by {
        lemma_config_dialog::<P>(before, c, rest, f);
    }
    lemma_put_all_child::<P::Function, RunnerConfig<P>, BotDialog<P>>(
        before,
        typed.dialog,
        with,
        name,
        placed,
    );
    lemma_put_all_nothing::<P::Function, BotDialog<P>>(typed.dialog);
        lemma_dialog_keeps::<P>(value, join_path(path, name));
    assert(with(direct.dialog) == config_after(fields, typed, direct, (m + 1) as nat));
}

/// Putting back the callables of the field `notifications` of a configuration.
#[verifier::rlimit(40)]
pub proof fn lemma_config_step_notifications<P: Provider>(
    fields: Seq<(Seq<char>, RawModel<P::Function>)>,
    path: Seq<char>,
    created_at: Timestamp,
    typed: ConfigModel<P::Function>,
    direct: ConfigModel<P::Function>,
    m: nat,
)
    requires
        well_keyed(RawModel::Object(fields)),
        m < fields.len(),
        runner_config_of(RawModel::Object(fields), created_at, true) == Ok::<ConfigModel<P::Function>, LoadError>(direct),
        runner_config_of(stripped(RawModel::Object(fields), path), created_at, false) == Ok::<ConfigModel<P::Function>, LoadError>(typed),
        key_position(fields, fields[m as int].0) == Some(m as int),
        fields[m as int].0 == "notifications"@,
    ensures
        put_all::<P::Function, RunnerConfig<P>>(
            config_after(fields, typed, direct, m),
            under(fields[m as int].0, placed_in(fields[m as int].1)),
        ) == config_after(fields, typed, direct, (m + 1) as nat),
{
    let before = config_after(fields, typed, direct, m);
    let name = fields[m as int].0;
    let value = fields[m as int].1;
    let placed = placed_in(value);
    assert(is_name(name));
    lemma_config_names();
    lemma_key_position(fields, "dialog"@);
    lemma_key_position(fields, "notifications"@);
    lemma_field_position(fields, name);
    lemma_given_stripped(fields, path, name);
    let with = |c: Seq<NotificationModel<P::Function>>| ConfigModel { notifications: c, ..before };
    assert(before == with(typed.notifications));
    assert forall|c: Seq<NotificationModel<P::Function>>, rest: Option<Seq<char>>, f: P::Function| #[trigger]
        <RunnerConfig<P> as Parcelable<P::Function>>::attached(with(c), Some(below(name, rest)), f)
            == match <Vec<BotNotification<P>> as Parcelable<P::Function>>::attached(c, rest, f) {
            Ok(x) => Ok::<ConfigModel<P::Function>, ParcelFault>(with(x)),
            Err(fault) => Err(fault),
        } by {
        lemma_config_notifications::<P>(before, c, rest, f);
    }
    lemma_put_all_child::<P::Function, RunnerConfig<P>, Vec<BotNotification<P>>>(
        before,
        typed.notifications,
        with,
        name,
        placed,
    );
    lemma_put_all_nothing::<P::Function, Vec<BotNotification<P>>>(typed.notifications);
        lemma_notifications_keep::<P>(given_field(fields, name), join_path(path, name));
    assert(with(direct.notifications) == config_after(fields, typed, direct, (m + 1) as nat));
}

/// Putting back the callables of a field of a configuration that holds no slot.
#[verifier::rlimit(40)]
pub proof fn lemma_config_step_other<P: Provider>(
    fields: Seq<(Seq<char>, RawModel<P::Function>)>,
    path: Seq<char>,
    created_at: Timestamp,
    typed: ConfigModel<P::Function>,
    direct: ConfigModel<P::Function>,
    m: nat,
)
    requires
        well_keyed(RawModel::Object(fields)),
        m < fields.len(),
        runner_config_of(RawModel::Object(fields), created_at, true) == Ok::<ConfigModel<P::Function>, LoadError>(direct),
        runner_config_of(stripped(RawModel::Object(fields), path), created_at, false) == Ok::<ConfigModel<P::Function>, LoadError>(typed),
        key_position(fields, fields[m as int].0) == Some(m as int),
        fields[m as int].0 != "dialog"@,
        fields[m as int].0 != "notifications"@,
    ensures
        put_all::<P::Function, RunnerConfig<P>>(
            config_after(fields, typed, direct, m),
            under(fields[m as int].0, placed_in(fields[m as int].1)),
        ) == config_after(fields, typed, direct, (m + 1) as nat),
{
    let before = config_after(fields, typed, direct, m);
    let name = fields[m as int].0;
    let value = fields[m as int].1;
    let placed = placed_in(value);
    assert(is_name(name));
    lemma_config_names();
    lemma_key_position(fields, "dialog"@);
    lemma_key_position(fields, "notifications"@);
    assert forall|rest: Option<Seq<char>>, f: P::Function| #[trigger]
        <RunnerConfig<P> as Parcelable<P::Function>>::attached(before, Some(below(name, rest)), f)
            is Err by {
        lemma_config_other::<P>(before, name, rest, f);
    }
    lemma_put_all_nowhere::<P::Function, RunnerConfig<P>>(before, name, placed);
    assert(before == config_after(fields, typed, direct, (m + 1) as nat));
}

/// Putting back the callables of the field at the place `m` of a configuration.
pub proof fn lemma_config_step<P: Provider>(
    fields: Seq<(Seq<char>, RawModel<P::Function>)>,
    path: Seq<char>,
    created_at: Timestamp,
    typed: ConfigModel<P::Function>,
    direct: ConfigModel<P::Function>,
    m: nat,
)
    requires
        well_keyed(RawModel::Object(fields)),
        m < fields.len(),
        runner_config_of(RawModel::Object(fields), created_at, true) == Ok::<ConfigModel<P::Function>, LoadError>(direct),
        runner_config_of(stripped(RawModel::Object(fields), path), created_at, false) == Ok::<ConfigModel<P::Function>, LoadError>(typed),
        key_position(fields, fields[m as int].0) == Some(m as int),
    ensures
        put_all::<P::Function, RunnerConfig<P>>(
            config_after(fields, typed, direct, m),
            under(fields[m as int].0, placed_in(fields[m as int].1)),
        ) == config_after(fields, typed, direct, (m + 1) as nat),
{
    if fields[m as int].0 == "dialog"@ {
        lemma_config_step_dialog::<P>(fields, path, created_at, typed, direct, m);
    } else if fields[m as int].0 == "notifications"@ {
        lemma_config_step_notifications::<P>(fields, path, created_at, typed, direct, m);
    } else {
        lemma_config_step_other::<P>(fields, path, created_at, typed, direct, m);
    }
}

/// Putting back the callables of the first `n` fields of a configuration.
#[verifier::rlimit(40)]
pub proof fn lemma_config_fold<P: Provider>(
    fields: Seq<(Seq<char>, RawModel<P::Function>)>,
    path: Seq<char>,
    created_at: Timestamp,
    typed: ConfigModel<P::Function>,
    direct: ConfigModel<P::Function>,
    n: nat,
)
    requires
        well_keyed(RawModel::Object(fields)),
        n <= fields.len(),
        runner_config_of(RawModel::Object(fields), created_at, true) == Ok::<ConfigModel<P::Function>, LoadError>(direct),
        runner_config_of(stripped(RawModel::Object(fields), path), created_at, false) == Ok::<ConfigModel<P::Function>, LoadError>(typed),
    ensures
        put_all::<P::Function, RunnerConfig<P>>(typed, placed_in_fields(fields, n)) == config_after(
            fields,
            typed,
            direct,
            n,
        ),
    decreases n,
{
    if n == 0 {
        lemma_key_position(fields, "dialog"@);
        lemma_key_position(fields, "notifications"@);
        assert(config_after(fields, typed, direct, 0) == typed);
    } else {
        let m = (n - 1) as nat;
        lemma_config_fold::<P>(fields, path, created_at, typed, direct, m);
        let name = fields[m as int].0;
        lemma_put_all_add::<P::Function, RunnerConfig<P>>(
            typed,
            placed_in_fields(fields, m),
            under(name, placed_in(fields[m as int].1)),
        );
        lemma_position_of(fields, m as int);
        lemma_config_step::<P>(fields, path, created_at, typed, direct, m);
    }
}

/// The block `config` is read alike from a value and from the value with
/// its callables taken out.
pub proof fn lemma_bot_config_stripped<F>(raw: RawModel<F>, path: Seq<char>)
    ensures
        bot_config_of(stripped(raw, path)) == bot_config_of(raw),
{
    match raw {
        RawModel::Object(fields) => {
            lemma_given_stripped(fields, path, "version"@);
            lemma_given_stripped(fields, path, "timezone"@);
        },
        _ => {},
    }
}

/// A configuration keeps its callables.
#[verifier::rlimit(40)]
pub proof fn lemma_config_keeps<P: Provider>(
    raw: RawModel<P::Function>,
    created_at: Timestamp,
    path: Seq<char>,
)
    requires
        well_keyed(raw),
    ensures
        match runner_config_of(raw, created_at, true) {
            Ok(direct) => runner_config_of(stripped(raw, path), created_at, false) matches Ok(
                typed,
            ) && put_all::<P::Function, RunnerConfig<P>>(typed, placed_in(raw)) == direct,
            Err(e) => runner_config_of(stripped(raw, path), created_at, false) == Err::<
                ConfigModel<P::Function>,
                LoadError,
            >(e),
        },
{
    match raw {
        RawModel::Object(fields) => {
            lemma_given_stripped(fields, path, "config"@);
            lemma_given_stripped(fields, path, "dialog"@);
            lemma_given_stripped(fields, path, "notifications"@);
            lemma_key_position(fields, "dialog"@);
            lemma_key_position(fields, "notifications"@);
            lemma_field_position(fields, "dialog"@);
            lemma_field_position(fields, "notifications"@);
            lemma_notifications_keep::<P>(
                given_field(fields, "notifications"@),
                join_path(path, "notifications"@),
            );
            match given_field(fields, "config"@) {
                Some(v) => {
                    lemma_bot_config_stripped(v, join_path(path, "config"@));
                },
                None => {},
            }
            match given_field(fields, "dialog"@) {
                Some(v) => {
                    lemma_dialog_keeps::<P>(v, join_path(path, "dialog"@));
                },
                None => {},
            }
            if runner_config_of(raw, created_at, true) is Ok {
                assert(runner_config_of(stripped(raw, path), created_at, false) is Ok);
                let typed = runner_config_of(stripped(raw, path), created_at, false)->Ok_0;
                let direct = runner_config_of(raw, created_at, true)->Ok_0;
                lemma_config_fold::<P>(fields, path, created_at, typed, direct, fields.len());
                assert(typed.config == direct.config);
                assert(config_after(fields, typed, direct, fields.len()).dialog == direct.dialog);
                assert(config_after(fields, typed, direct, fields.len()).notifications
                    == direct.notifications);
                assert(config_after(fields, typed, direct, fields.len()) == direct);
            }
        },
        _ => {},
    }
}

/// The callables of `placed`, each with the path of its place seen from
/// the root, where the node that sees them stands at `path`.
pub open spec fn located<F>(path: Seq<char>, placed: Seq<Placed<F>>) -> Seq<(Seq<char>, F)> {
    Seq::new(
        placed.len(),
        |i: int|
            (
                match placed[i].0 {
                    None => path,
                    Some(rest) => join_path(path, rest),
                },
                placed[i].1,
            ),
    )
}

/// The path of a place below a child, seen from the root, is the path of
/// the place seen from the child, put after the path of the child.
pub proof fn lemma_located_under<F>(path: Seq<char>, name: Seq<char>, placed: Seq<Placed<F>>)
    requires
        name.len() > 0,
    ensures
        located(path, under(name, placed)) == located(join_path(path, name), placed),
{
    assert forall|i: int| 0 <= i < placed.len() implies located(path, under(name, placed))[i]
        == located(join_path(path, name), placed)[i] by {
        match placed[i].0 {
            None => {},
            Some(rest) => {
                assert(join_path(path, name + seq!['.'] + rest) =~= join_path(
                    join_path(path, name),
                    rest,
                ));
            },
        }
    }
    assert(located(path, under(name, placed)) =~= located(join_path(path, name), placed));
}

/// The callables that the first pass finds are the callables of the tree,
/// each with the path of its place seen from the root.
pub proof fn lemma_functions_located<F>(raw: RawModel<F>, path: Seq<char>)
    requires
        well_keyed(raw),
    ensures
        functions_of(raw, path) == located(path, placed_in(raw)),
    decreases raw, 0nat,
{
    match raw {
        RawModel::Function(f) => {
            assert(functions_of(raw, path) =~= located(path, placed_in(raw)));
        },
        RawModel::List(items) => {
            lemma_functions_located_items(items, path, items.len());
        },
        RawModel::Object(fields) => {
            lemma_functions_located_fields(fields, path, fields.len());
        },
        _ => {
            assert(functions_of(raw, path) =~= located(path, placed_in(raw)));
        },
    }
}

/// The same, for the first `n` items of a list.
pub proof fn lemma_functions_located_items<F>(items: Seq<RawModel<F>>, path: Seq<char>, n: nat)
    requires
        n <= items.len(),
        forall|i: int| 0 <= i < items.len() ==> well_keyed(#[trigger] items[i]),
    ensures
        crate::config::value::functions_of_items(items, path, n) == located(
            path,
            placed_in_items(items, n),
        ),
    decreases items, n,
{
    if n == 0 {
        assert(crate::config::value::functions_of_items(items, path, n) =~= located(
            path,
            placed_in_items(items, n),
        ));
    } else {
        let m = (n - 1) as nat;
        lemma_functions_located_items(items, path, m);
        lemma_functions_located(items[m as int], join_path(path, decimal(m)));
        lemma_decimal_round_trip(m);
        lemma_located_under(path, decimal(m), placed_in(items[m as int]));
        assert(located(
            path,
            placed_in_items(items, m) + under(decimal(m), placed_in(items[m as int])),
        ) =~= located(path, placed_in_items(items, m)) + located(
            path,
            under(decimal(m), placed_in(items[m as int])),
        ));
    }
}

/// The same, for the first `n` fields of an object.
pub proof fn lemma_functions_located_fields<F>(
    fields: Seq<(Seq<char>, RawModel<F>)>,
    path: Seq<char>,
    n: nat,
)
    requires
        n <= fields.len(),
        forall|i: int| 0 <= i < fields.len() ==> is_name((#[trigger] fields[i]).0),
        forall|i: int| 0 <= i < fields.len() ==> well_keyed((#[trigger] fields[i]).1),
    ensures
        crate::config::value::functions_of_fields(fields, path, n) == located(
            path,
            placed_in_fields(fields, n),
        ),
    decreases fields, n,
{
    if n == 0 {
        assert(crate::config::value::functions_of_fields(fields, path, n) =~= located(
            path,
            placed_in_fields(fields, n),
        ));
    } else {
        let m = (n - 1) as nat;
        lemma_functions_located_fields(fields, path, m);
        let name = fields[m as int].0;
        assert(is_name(name));
        lemma_functions_located(fields[m as int].1, join_path(path, name));
        lemma_located_under(path, name, placed_in(fields[m as int].1));
        assert(located(
            path,
            placed_in_fields(fields, m) + under(name, placed_in(fields[m as int].1)),
        ) =~= located(path, placed_in_fields(fields, m)) + located(
            path,
            under(name, placed_in(fields[m as int].1)),
        ));
    }
}

/// The callable stands at a place below the node that sees it.
pub open spec fn stands_below<F>(placed: Placed<F>) -> bool {
    match placed.0 {
        Some(rest) => rest.len() > 0,
        None => false,
    }
}

/// Every callable of the fields of an object stands below a field.
pub proof fn lemma_placed_in_fields_below<F>(fields: Seq<(Seq<char>, RawModel<F>)>, n: nat)
    requires
        n <= fields.len(),
        forall|i: int| 0 <= i < fields.len() ==> is_name((#[trigger] fields[i]).0),
    ensures
        forall|i: int|
            0 <= i < placed_in_fields(fields, n).len() ==> stands_below(
                #[trigger] placed_in_fields(fields, n)[i],
            ),
    decreases n,
{
    if n > 0 {
        let m = (n - 1) as nat;
        lemma_placed_in_fields_below(fields, m);
        let front = placed_in_fields(fields, m);
        let name = fields[m as int].0;
        assert(is_name(name));
        let back = under(name, placed_in(fields[m as int].1));
        assert forall|i: int| 0 <= i < placed_in_fields(fields, n).len() implies stands_below(
            #[trigger] placed_in_fields(fields, n)[i],
        ) by {
            if i < front.len() {
                assert(placed_in_fields(fields, n)[i] == front[i]);
            } else {
                assert(placed_in_fields(fields, n)[i] == back[i - front.len()]);
            }
        }
    }
}

/// Putting callables back by their paths seen from the root, one after
/// the other, is putting them into the configuration.
pub proof fn lemma_attach_all_put_all<P: Provider>(
    typed: ConfigModel<P::Function>,
    placed: Seq<Placed<P::Function>>,
    n: nat,
)
    requires
        n <= placed.len(),
        forall|i: int| 0 <= i < placed.len() ==> stands_below(#[trigger] placed[i]),
    ensures
        attach_all::<P>(typed, located(Seq::empty(), placed), n).0 == put_all::<
            P::Function,
            RunnerConfig<P>,
        >(typed, placed.take(n as int)),
    decreases n,
{
    if n == 0 {
        assert(placed.take(0) =~= Seq::<Placed<P::Function>>::empty());
    } else {
        let m = (n - 1) as nat;
        lemma_attach_all_put_all::<P>(typed, placed, m);
        assert(placed.take(n as int).drop_last() =~= placed.take(m as int));
        assert(placed.take(n as int).last() == placed[m as int]);
        let rest = placed[m as int].0->0;
        assert(located(Seq::<char>::empty(), placed)[m as int].0 == rest);
    }
}

/// The three passes of a load keep every callable of a configuration.
///
/// Where every object of what the script exposed holds each name once,
/// and every name is a name that can stand in a dotted path, taking the
/// callables out, building the typed configuration from the plain data,
/// and putting each callable back into the slot at its path gives exactly
/// the configuration that the script wrote, every live callable in its
/// place. And the load refuses the plain data exactly where what the
/// script wrote has not the shape of a configuration, for the same part.
pub proof fn law_load_keeps_callables<P: Provider>(
    raw: RawModel<P::Function>,
    created_at: Timestamp,
)
    requires
        well_keyed(raw),
    ensures
        match runner_config_of(raw, created_at, true) {
            Ok(direct) => runner_config_of(stripped(raw, Seq::empty()), created_at, false)
                matches Ok(typed) && ({
                let found = functions_of(raw, Seq::empty());
                attach_all::<P>(typed, found, found.len()).0 == direct
            }),
            Err(e) => runner_config_of(stripped(raw, Seq::empty()), created_at, false) == Err::<
                ConfigModel<P::Function>,
                LoadError,
            >(e),
        },
{
    let root = Seq::<char>::empty();
    lemma_config_keeps::<P>(raw, created_at, root);
    match raw {
        RawModel::Object(fields) => {
            if runner_config_of(raw, created_at, true) is Ok {
                let typed = runner_config_of(stripped(raw, root), created_at, false)->Ok_0;
                let placed = placed_in(raw);
                lemma_functions_located(raw, root);
                lemma_placed_in_fields_below(fields, fields.len());
                assert(placed == placed_in_fields(fields, fields.len()));
                lemma_attach_all_put_all::<P>(typed, placed, placed.len());
                assert(placed.take(placed.len() as int) =~= placed);
            }
        },
        _ => {},
    }
}

/// The handler that a script gives to the command `command`: the field
/// `handler` of the message that stands under the command's name in the
/// table `commands` of the block `dialog`.
pub open spec fn scripted_handler<F>(raw: RawModel<F>, command: Seq<char>) -> Option<RawModel<F>> {
    match raw {
        RawModel::Object(fields) => match given_field(fields, "dialog"@) {
            Some(RawModel::Object(dialog)) => match given_field(dialog, "commands"@) {
                Some(RawModel::Object(commands)) => match field_of(commands, command) {
                    Some(RawModel::Object(message)) => given_field(message, "handler"@),
                    _ => None,
                },
                _ => None,
            },
            _ => None,
        },
        _ => None,
    }
}

/// A handler that a script wrote as a callable is callable after the load.
///
/// Where a script gives a command a callable as its handler, and every
/// object of what the script exposed holds each name once, every name a
/// name that can stand in a dotted path, the configuration that the three
/// passes of a load give holds the command, and the handler of its message
/// is that very callable, live, and no placeholder. The message that is
/// handed out for the command, its literal and defaults set, has the same
/// handler.
pub proof fn law_loaded_handler_is_live<P: Provider>(
    raw: RawModel<P::Function>,
    created_at: Timestamp,
    config: RunnerConfig<P>,
    command: Seq<char>,
    f: P::Function,
)
    requires
        well_keyed(raw),
        scripted_handler(raw, command) == Some(RawModel::Function(f)),
        config.loaded_from(raw, created_at),
    ensures
        config.command_entry(command) matches Some(entry) && entry.model().handler == Some(
            SlotModel::Live(f),
        ) && with_defaults(with_literal(entry.model(), command)).handler == Some(
            SlotModel::Live(f),
        ),
{
    law_load_keeps_callables::<P>(raw, created_at);
    let direct = runner_config_of(raw, created_at, true);
    assert(direct is Ok);
    let fields = raw->Object_0;
    let dialog = given_field(fields, "dialog"@)->0->Object_0;
    let commands = given_field(dialog, "commands"@)->0->Object_0;
    lemma_field_position(commands, command);
    lemma_key_position(commands, command);
    let i = key_position(commands, command)->0;
    assert(dialog_of(RawModel::Object(dialog), true) is Some);
    assert(messages_of(RawModel::Object(commands), true) is Some);
    let parsed = messages_of(RawModel::Object(commands), true)->0;
    assert(parsed[i] == (command, message_of(commands[i].1, true)->0));
    assert(message_of(commands[i].1, true) is Some);
    assert(parsed[i].1.handler == Some(SlotModel::Live(f)));
    assert(config.model().dialog.commands == parsed);
    let table = config.dialog.commands;
    assert(messages_model(table)[i] == parsed[i]);
    assert(table.entries@[i].0@ == command);
    lemma_key_index(table.entries@, i);
}

} // verus!
