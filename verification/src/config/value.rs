//! Plain data as it crosses between a script engine and the host.

use vstd::prelude::*;

use crate::text::{decimal, str_eq};

verus! {

/// What a script hands to the host, as a tree of plain data: the form in
/// which values cross between a script engine and the host. A callable of
/// the engine stands in the tree as a leaf of its own, or, once it has been
/// taken out, as a placeholder that carries the dotted path of its place.
pub enum RawValue<F> {
    Null,
    Bool(bool),
    /// A whole number.
    Int(i64),
    /// A number that is not whole, as the bits of its IEEE 754 double.
    Float(u64),
    Text(String),
    List(Vec<RawValue<F>>),
    /// The fields of an object, in the order in which the script wrote them.
    Object(Vec<(String, RawValue<F>)>),
    /// A live callable of the script engine.
    Function(F),
    /// The inert mark that a callable leaves behind when it is taken out of
    /// the tree.
    Placeholder(String),
}

/// A number as a script writes it.
#[derive(Clone, Copy, Debug, PartialEq, Eq, Structural)]
pub enum Number {
    /// A whole number.
    Int(i64),
    /// A number that is not whole, as the bits of its IEEE 754 double.
    Float(u64),
}

/// The mathematical form of a `RawValue`.
pub enum RawModel<F> {
    Null,
    Bool(bool),
    Int(i64),
    Float(u64),
    Text(Seq<char>),
    List(Seq<RawModel<F>>),
    Object(Seq<(Seq<char>, RawModel<F>)>),
    Function(F),
    Placeholder(Seq<char>),
}

/// The model of a value that may be missing.
pub open spec fn model_in<F>(field: Option<&RawValue<F>>) -> Option<RawModel<F>> {
    match field {
        Some(v) => Some(v.model()),
        None => None,
    }
}

/// The dotted path of a child: the path of its parent, a dot, and its own
/// name; the name alone under the root.
pub open spec fn join_path(parent: Seq<char>, name: Seq<char>) -> Seq<char> {
    if parent.len() == 0 {
        name
    } else {
        parent + seq!['.'] + name
    }
}

/// The tree with every callable taken out: in its place stands a
/// placeholder that carries the dotted path of the place.
pub open spec fn stripped<F>(value: RawModel<F>, path: Seq<char>) -> RawModel<F>
    decreases value,
{
    match value {
        RawModel::Function(_) => RawModel::Placeholder(path),
        RawModel::List(items) => RawModel::List(
            Seq::new(
                items.len(),
                |i: int|
                    if 0 <= i < items.len() {
                        stripped(items[i], join_path(path, decimal(i as nat)))
                    } else {
                        RawModel::Null
                    },
            ),
        ),
        RawModel::Object(fields) => RawModel::Object(
            Seq::new(
                fields.len(),
                |i: int|
                    if 0 <= i < fields.len() {
                        (fields[i].0, stripped(fields[i].1, join_path(path, fields[i].0)))
                    } else {
                        (Seq::empty(), RawModel::Null)
                    },
            ),
        ),
        other => other,
    }
}

/// The callables of the tree, each with the dotted path of its place, in
/// the order in which the tree holds them.
pub open spec fn functions_of<F>(value: RawModel<F>, path: Seq<char>) -> Seq<(Seq<char>, F)>
    decreases value, 0nat,
{
    match value {
        RawModel::Function(f) => seq![(path, f)],
        RawModel::List(items) => functions_of_items(items, path, items.len()),
        RawModel::Object(fields) => functions_of_fields(fields, path, fields.len()),
        _ => seq![],
    }
}

/// The callables of the first `n` items of a list.
pub open spec fn functions_of_items<F>(items: Seq<RawModel<F>>, path: Seq<char>, n: nat) -> Seq<
    (Seq<char>, F),
>
    decreases items, n,
{
    if n == 0 || n > items.len() {
        seq![]
    } else {
        functions_of_items(items, path, (n - 1) as nat) + functions_of(
            items[n - 1],
            join_path(path, decimal((n - 1) as nat)),
        )
    }
}

/// The callables of the first `n` fields of an object.
pub open spec fn functions_of_fields<F>(
    fields: Seq<(Seq<char>, RawModel<F>)>,
    path: Seq<char>,
    n: nat,
) -> Seq<(Seq<char>, F)>
    decreases fields, n,
{
    if n == 0 || n > fields.len() {
        seq![]
    } else {
        functions_of_fields(fields, path, (n - 1) as nat) + functions_of(
            fields[n - 1].1,
            join_path(path, fields[n - 1].0),
        )
    }
}

/// The characters of each path, and the callable that goes with it.
pub open spec fn found_model<F>(found: Seq<(String, F)>) -> Seq<(Seq<char>, F)> {
    Seq::new(found.len(), |i: int| (found[i].0@, found[i].1))
}

/// Makes the dotted path of a child.
pub fn child_path(parent: &str, name: &str) -> (path: String)
    ensures
        path@ == join_path(parent@, name@),
{
    if parent.unicode_len() == 0 {
        name.to_owned()
    } else {
        let path = parent.to_owned().concat(".").concat(name);
        proof {
            reveal_strlit(".");
            assert("."@ =~= seq!['.']);
        }
        path
    }
}

/// The value of the first field with the name `name`.
pub open spec fn field_of<F>(fields: Seq<(Seq<char>, RawModel<F>)>, name: Seq<char>) -> Option<
    RawModel<F>,
>
    decreases fields.len(),
{
    if fields.len() == 0 {
        None
    } else if fields[0].0 == name {
        Some(fields[0].1)
    } else {
        field_of(fields.skip(1), name)
    }
}

/// A field that is there: a field that holds `Null` counts as missing.
pub open spec fn given<F>(field: Option<RawModel<F>>) -> Option<RawModel<F>> {
    match field {
        Some(RawModel::Null) => None,
        other => other,
    }
}

/// The field `name` of an object, where it is there.
pub open spec fn given_field<F>(fields: Seq<(Seq<char>, RawModel<F>)>, name: Seq<char>) -> Option<
    RawModel<F>,
> {
    given(field_of(fields, name))
}

/// An optional text: `Some(None)` where the field is missing, `None` where
/// it holds anything but a text.
pub open spec fn text_in<F>(field: Option<RawModel<F>>) -> Option<Option<Seq<char>>> {
    match field {
        None => Some(None),
        Some(RawModel::Text(s)) => Some(Some(s)),
        Some(_) => None,
    }
}

/// An optional truth value: `Some(None)` where the field is missing, `None`
/// where it holds anything but a truth value.
pub open spec fn bool_in<F>(field: Option<RawModel<F>>) -> Option<Option<bool>> {
    match field {
        None => Some(None),
        Some(RawModel::Bool(b)) => Some(Some(b)),
        Some(_) => None,
    }
}

/// An optional whole number from `low` to `high`: `Some(None)` where the
/// field is missing, `None` where it holds anything else.
pub open spec fn int_in<F>(field: Option<RawModel<F>>, low: int, high: int) -> Option<Option<int>> {
    match field {
        None => Some(None),
        Some(RawModel::Int(n)) => if low <= n <= high {
            Some(Some(n as int))
        } else {
            None
        },
        Some(_) => None,
    }
}

/// The models of the fields of an object.
pub open spec fn fields_model<F>(fields: Seq<(String, RawValue<F>)>) -> Seq<
    (Seq<char>, RawModel<F>),
> {
    Seq::new(fields.len(), |i: int| (fields[i].0@, fields[i].1.model()))
}

/// The models of the items of a list.
pub open spec fn items_model<F>(items: Seq<RawValue<F>>) -> Seq<RawModel<F>> {
    Seq::new(items.len(), |i: int| items[i].model())
}

/// The model of an object is made of the models of its fields, and the
/// model of a list of the models of its items.
pub proof fn lemma_model_parts<F>(value: RawValue<F>)
    ensures
        value matches RawValue::Object(fields) ==> value.model() == RawModel::Object(
            fields_model(fields@),
        ),
        value matches RawValue::List(items) ==> value.model() == RawModel::List(
            items_model(items@),
        ),
{
    match value {
        RawValue::Object(fields) => {
            assert(value.model()->Object_0 =~= fields_model(fields@));
        },
        RawValue::List(items) => {
            assert(value.model()->List_0 =~= items_model(items@));
        },
        _ => {},
    }
}

/// Looks up the field `name` of an object; a field that holds `Null` counts
/// as missing.
pub fn find_field<'a, F>(fields: &'a Vec<(String, RawValue<F>)>, name: &str) -> (found: Option<
    &'a RawValue<F>,
>)
    ensures
        match found {
            Some(v) => given_field(fields_model(fields@), name@) == Some(v.model()),
            None => given_field(fields_model(fields@), name@) is None,
        },
{
    let ghost models = fields_model(fields@);
    let mut i: usize = 0;
    proof {
        assert(models.skip(0) =~= models);
    }
    while i < fields.len()
        invariant
            i <= fields@.len(),
            models == fields_model(fields@),
            field_of(models, name@) == field_of(models.skip(i as int), name@),
        decreases fields@.len() - i,
    {
        proof {
            assert(models.skip(i as int)[0] == models[i as int]);
            assert(models.skip(i as int).skip(1) =~= models.skip(i + 1));
        }
        if str_eq(fields[i].0.as_str(), name) {
            return match &fields[i].1 {
                RawValue::Null => None,
                other => Some(other),
            };
        }
        i += 1;
    }
    None
}

impl<F> RawValue<F> {
    /// The fields of an object.
    pub fn as_object(&self) -> (fields: Option<&Vec<(String, RawValue<F>)>>)
        ensures
            match fields {
                Some(f) => self.model() == RawModel::Object(fields_model(f@)),
                None => !(self.model() is Object),
            },
    {
        proof {
            lemma_model_parts(*self);
        }
        match self {
            RawValue::Object(fields) => Some(fields),
            _ => None,
        }
    }

    /// The items of a list.
    pub fn as_list(&self) -> (items: Option<&Vec<RawValue<F>>>)
        ensures
            match items {
                Some(l) => self.model() == RawModel::List(items_model(l@)),
                None => !(self.model() is List),
            },
    {
        proof {
            lemma_model_parts(*self);
        }
        match self {
            RawValue::List(items) => Some(items),
            _ => None,
        }
    }

    /// Reads an optional text.
    pub fn optional_text(field: Option<&RawValue<F>>) -> (text: Option<Option<String>>)
        ensures
            match text_in(model_in(field)) {
                Some(Some(s)) => text matches Some(Some(t)) && t@ == s,
                Some(None) => text == Some(None::<String>),
                None => text is None,
            },
    {
        match field {
            None => Some(None),
            Some(RawValue::Text(s)) => Some(Some(s.clone())),
            Some(_) => None,
        }
    }

    /// Reads an optional truth value.
    pub fn optional_bool(field: Option<&RawValue<F>>) -> (value: Option<Option<bool>>)
        ensures
            value == bool_in(model_in(field)),
    {
        match field {
            None => Some(None),
            Some(RawValue::Bool(b)) => Some(Some(*b)),
            Some(_) => None,
        }
    }

    /// Reads an optional whole number from `low` to `high`.
    pub fn optional_int(field: Option<&RawValue<F>>, low: i64, high: i64) -> (value: Option<
        Option<i64>,
    >)
        ensures
            match int_in(model_in(field), low as int, high as int) {
                Some(Some(n)) => value == Some(Some(n as i64)) && low <= n <= high,
                Some(None) => value == Some(None::<i64>),
                None => value is None,
            },
    {
        match field {
            None => Some(None),
            Some(RawValue::Int(n)) => if low <= *n && *n <= high {
                Some(Some(*n))
            } else {
                None
            },
            Some(_) => None,
        }
    }

    /// The tree as a mathematical value.
    pub open spec fn model(self) -> RawModel<F>
        decreases self,
    {
        match self {
            RawValue::Null => RawModel::Null,
            RawValue::Bool(b) => RawModel::Bool(b),
            RawValue::Int(n) => RawModel::Int(n),
            RawValue::Float(bits) => RawModel::Float(bits),
            RawValue::Text(s) => RawModel::Text(s@),
            RawValue::List(items) => RawModel::List(
                Seq::new(
                    items@.len(),
                    |i: int|
                        if 0 <= i < items@.len() {
                            items@[i].model()
                        } else {
                            RawModel::Null
                        },
                ),
            ),
            RawValue::Object(fields) => RawModel::Object(
                Seq::new(
                    fields@.len(),
                    |i: int|
                        if 0 <= i < fields@.len() {
                            (fields@[i].0@, fields@[i].1.model())
                        } else {
                            (Seq::empty(), RawModel::Null)
                        },
                ),
            ),
            RawValue::Function(f) => RawModel::Function(f),
            RawValue::Placeholder(path) => RawModel::Placeholder(path@),
        }
    }
}

} // verus!
