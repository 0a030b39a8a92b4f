//! Nodes of a configuration that are addressed by dotted paths, so that
//! a callable can be put into the slot at a path.

use std::sync::Arc;

use vstd::prelude::*;

use crate::text::{number_of, parse_index, split_once_char, str_eq};
use crate::utils::table::Table;

verus! {

/// What stands at a place of a configuration.
#[derive(Clone, Copy, Debug, PartialEq, Eq, Structural)]
pub enum ParcelType {
    /// A slot for a callable.
    Function,
    /// A node with children, which can be asked for a child.
    Parcelable,
    /// An opaque leaf.
    Other,
}

#[derive(Debug)]
pub enum ParcelableError {
    /// The node has no child of that name.
    FieldError(String),
    /// The path goes on below a place that has no children.
    NestError(String),
    /// The place is empty, or holds no slot for a callable.
    ResolveError(String),
}

/// The kind of a `ParcelableError`.
#[derive(Clone, Copy, Debug, PartialEq, Eq, Structural)]
pub enum ParcelFault {
    Field,
    Nest,
    Resolve,
}

pub type ParcelableResult<T> = Result<T, ParcelableError>;

/// The place of the first dot of a path.
pub open spec fn first_dot(path: Seq<char>) -> Option<int>
    decreases path.len(),
{
    if path.len() == 0 {
        None
    } else if path[0] == '.' {
        Some(0int)
    } else {
        match first_dot(path.skip(1)) {
            Some(i) => Some(i + 1),
            None => None,
        }
    }
}

/// The first name of a dotted path.
pub open spec fn head_of(path: Seq<char>) -> Seq<char> {
    match first_dot(path) {
        Some(i) => path.take(i),
        None => path,
    }
}

/// What follows the first name of a dotted path, if anything does.
pub open spec fn tail_of(path: Seq<char>) -> Option<Seq<char>> {
    match first_dot(path) {
        Some(i) => Some(path.skip(i + 1)),
        None => None,
    }
}

/// A path without a dot has no first dot.
pub proof fn lemma_no_dot(path: Seq<char>)
    requires
        !path.contains('.'),
    ensures
        first_dot(path) is None,
    decreases path.len(),
{
    if path.len() > 0 {
        assert(path[0] != '.') by {
            if path[0] == '.' {
                assert(path.contains(path[0]));
            }
        }
        assert forall|k: int| 0 <= k < path.skip(1).len() implies path.skip(1)[k] != '.' by {
            assert(path.contains(path[k + 1]));
        }
        lemma_no_dot(path.skip(1));
    }
}

/// The first dot of a name without dots that is followed by a dot stands
/// right after the name.
pub proof fn lemma_first_dot(head: Seq<char>, tail: Seq<char>)
    requires
        !head.contains('.'),
    ensures
        first_dot(head + seq!['.'] + tail) == Some(head.len() as int),
        head_of(head + seq!['.'] + tail) == head,
        tail_of(head + seq!['.'] + tail) == Some(tail),
    decreases head.len(),
{
    let path = head + seq!['.'] + tail;
    if head.len() == 0 {
        assert(path[0] == '.');
    } else {
        assert(path[0] == head[0]);
        assert(head.contains(head[0]));
        let shorter = head.skip(1);
        assert forall|k: int| 0 <= k < shorter.len() implies shorter[k] != '.' by {
            assert(head.contains(head[k + 1]));
        }
        assert(path.skip(1) =~= shorter + seq!['.'] + tail);
        lemma_first_dot(shorter, tail);
    }
    assert(path.take(head.len() as int) =~= head);
    assert(path.skip(head.len() as int + 1) =~= tail);
}

/// The characters of a text that may be missing.
pub open spec fn chars_of(text: Option<&str>) -> Option<Seq<char>> {
    match text {
        Some(t) => Some(t@),
        None => None,
    }
}

/// Splits a dotted path into its first name and what follows it.
pub fn split_path<'a>(path: &'a str) -> (parts: (&'a str, Option<&'a str>))
    ensures
        parts.0@ == head_of(path@),
        chars_of(parts.1) == tail_of(path@),
{
    match split_once_char(path, '.') {
        Some((head, tail)) => {
            proof {
                lemma_first_dot(head@, tail@);
            }
            (head, Some(tail))
        },
        None => {
            proof {
                lemma_no_dot(path@);
            }
            (path, None)
        },
    }
}

impl ParcelableError {
    /// The kind of the error.
    pub open spec fn spec_fault(&self) -> ParcelFault {
        match self {
            ParcelableError::FieldError(_) => ParcelFault::Field,
            ParcelableError::NestError(_) => ParcelFault::Nest,
            ParcelableError::ResolveError(_) => ParcelFault::Resolve,
        }
    }

    /// The kind of the error.
    pub fn fault(&self) -> (kind: ParcelFault)
        ensures
            kind == self.spec_fault(),
    {
        match self {
            ParcelableError::FieldError(_) => ParcelFault::Field,
            ParcelableError::NestError(_) => ParcelFault::Nest,
            ParcelableError::ResolveError(_) => ParcelFault::Resolve,
        }
    }

    /// The error for a node that has no child of the name `name`.
    pub fn no_field(name: &str) -> (e: Self)
        ensures
            e matches ParcelableError::FieldError(msg) && msg@ == "no such field: "@ + name@,
    {
        ParcelableError::FieldError("no such field: ".to_owned().concat(name))
    }

    /// The error for a path that goes on below a place without children.
    pub fn end_of_nesting(rest: &str) -> (e: Self)
        ensures
            e matches ParcelableError::NestError(msg) && msg@ == "Failed to get field "@ + rest@
                + ". End of nestment"@,
    {
        ParcelableError::NestError(
            "Failed to get field ".to_owned().concat(rest).concat(". End of nestment"),
        )
    }

    /// The error for a place that holds no slot for a callable.
    pub fn not_a_slot() -> (e: Self)
        ensures
            e matches ParcelableError::ResolveError(msg) && msg@ == "not a slot for a callable"@,
    {
        ParcelableError::ResolveError("not a slot for a callable".to_owned())
    }

    /// The error of a leaf, which has no children and holds no slot: the
    /// path ends at it, or goes on below it.
    pub fn at_leaf(path: Option<&str>) -> (e: Self)
        ensures
            e.spec_fault() == leaf_fault(chars_of(path)),
    {
        match path {
            None => Self::not_a_slot(),
            Some(rest) => Self::end_of_nesting(rest),
        }
    }
}

/// The fault of a leaf: a path that ends at it finds no slot, a path that
/// goes on finds no children.
pub open spec fn leaf_fault(path: Option<Seq<char>>) -> ParcelFault {
    match path {
        None => ParcelFault::Resolve,
        Some(_) => ParcelFault::Nest,
    }
}

/// A node of a configuration that can be addressed by a dotted path: it
/// resolves a named or indexed child, or is a slot for a callable, or is an
/// opaque leaf. `path` is `None` for the node itself.
pub trait Parcelable<F>: Sized {
    /// The mathematical form of the node.
    type Model;

    /// The node as a mathematical value.
    spec fn parcel_model(&self) -> Self::Model;

    /// The node with the callable `function` put into the slot at `path`,
    /// or the reason why there is no such slot.
    spec fn attached(model: Self::Model, path: Option<Seq<char>>, function: F) -> Result<
        Self::Model,
        ParcelFault,
    >;

    /// What a node is: a slot for a callable, a node with children, or an
    /// opaque leaf.
    spec fn kind_of(model: Self::Model) -> ParcelType;

    /// A callable can be put into a node itself exactly where the node is
    /// a slot for a callable.
    proof fn lemma_slot(model: Self::Model, function: F)
        ensures
            Self::attached(model, None, function) is Ok <==> Self::kind_of(model)
                == ParcelType::Function,
    ;

    /// What the node is.
    fn resolve(&self) -> (kind: ParcelType)
        ensures
            kind == Self::kind_of(self.parcel_model()),
    ;

    /// Puts the live callable `function` into the slot at `path`. Where
    /// there is no such slot, nothing changes.
    fn attach(&mut self, path: Option<&str>, function: Arc<F>) -> (done: ParcelableResult<()>)
        ensures
            match Self::attached(old(self).parcel_model(), chars_of(path), *function) {
                Ok(m) => done is Ok && final(self).parcel_model() == m,
                Err(fault) => done matches Err(e) && e.spec_fault() == fault
                    && final(self).parcel_model() == old(self).parcel_model(),
            },
    ;
}

impl<F> Parcelable<F> for String {
    type Model = Seq<char>;

    open spec fn parcel_model(&self) -> Seq<char> {
        self@
    }

    open spec fn attached(model: Seq<char>, path: Option<Seq<char>>, function: F) -> Result<
        Seq<char>,
        ParcelFault,
    > {
        Err(leaf_fault(path))
    }

    open spec fn kind_of(model: Seq<char>) -> ParcelType {
        ParcelType::Other
    }

    proof fn lemma_slot(model: Seq<char>, function: F) {
    }

    fn resolve(&self) -> (kind: ParcelType) {
        ParcelType::Other
    }

    fn attach(&mut self, path: Option<&str>, function: Arc<F>) -> (done: ParcelableResult<()>) {
        Err(ParcelableError::at_leaf(path))
    }
}

impl<F> Parcelable<F> for bool {
    type Model = bool;

    open spec fn parcel_model(&self) -> bool {
        *self
    }

    open spec fn attached(model: bool, path: Option<Seq<char>>, function: F) -> Result<
        bool,
        ParcelFault,
    > {
        Err(leaf_fault(path))
    }

    open spec fn kind_of(model: bool) -> ParcelType {
        ParcelType::Other
    }

    proof fn lemma_slot(model: bool, function: F) {
    }

    fn resolve(&self) -> (kind: ParcelType) {
        ParcelType::Other
    }

    fn attach(&mut self, path: Option<&str>, function: Arc<F>) -> (done: ParcelableResult<()>) {
        Err(ParcelableError::at_leaf(path))
    }
}

impl<F, T: Parcelable<F>> Parcelable<F> for Option<T> {
    type Model = Option<T::Model>;

    open spec fn parcel_model(&self) -> Option<T::Model> {
        match self {
            Some(v) => Some(v.parcel_model()),
            None => None,
        }
    }

    /// An empty place resolves to nothing; a full one is what it holds.
    open spec fn attached(model: Option<T::Model>, path: Option<Seq<char>>, function: F) -> Result<
        Option<T::Model>,
        ParcelFault,
    > {
        match model {
            Some(v) => match T::attached(v, path, function) {
                Ok(m) => Ok(Some(m)),
                Err(fault) => Err(fault),
            },
            None => Err(ParcelFault::Resolve),
        }
    }

    open spec fn kind_of(model: Option<T::Model>) -> ParcelType {
        match model {
            Some(v) => T::kind_of(v),
            None => ParcelType::Other,
        }
    }

    proof fn lemma_slot(model: Option<T::Model>, function: F) {
        match model {
            Some(v) => {
                T::lemma_slot(v, function);
            },
            None => {},
        }
    }

    fn resolve(&self) -> (kind: ParcelType) {
        match self {
            Some(v) => v.resolve(),
            None => ParcelType::Other,
        }
    }

    fn attach(&mut self, path: Option<&str>, function: Arc<F>) -> (done: ParcelableResult<()>) {
        match self.take() {
            Some(mut v) => {
                let done = v.attach(path, function);
                *self = Some(v);
                done
            },
            None => Err(ParcelableError::ResolveError("Option was None".to_owned())),
        }
    }
}

impl<F, T: Parcelable<F>> Parcelable<F> for Vec<T> {
    type Model = Seq<T::Model>;

    open spec fn parcel_model(&self) -> Seq<T::Model> {
        Seq::new(self@.len(), |i: int| self@[i].parcel_model())
    }

    /// A list resolves the child at the place that the first name of the
    /// path tells in decimal digits.
    open spec fn attached(model: Seq<T::Model>, path: Option<Seq<char>>, function: F) -> Result<
        Seq<T::Model>,
        ParcelFault,
    > {
        match path {
            None => Err(ParcelFault::Resolve),
            Some(p) => match number_of(head_of(p)) {
                Some(i) => if i < model.len() {
                    match T::attached(model[i as int], tail_of(p), function) {
                        Ok(m) => Ok(model.update(i as int, m)),
                        Err(fault) => Err(fault),
                    }
                } else {
                    Err(ParcelFault::Field)
                },
                None => Err(ParcelFault::Field),
            },
        }
    }

    open spec fn kind_of(model: Seq<T::Model>) -> ParcelType {
        ParcelType::Parcelable
    }

    proof fn lemma_slot(model: Seq<T::Model>, function: F) {
    }

    fn resolve(&self) -> (kind: ParcelType) {
        ParcelType::Parcelable
    }

    fn attach(&mut self, path: Option<&str>, function: Arc<F>) -> (done: ParcelableResult<()>) {
        let path = match path {
            Some(path) => path,
            None => {
                return Err(ParcelableError::not_a_slot());
            },
        };
        let (name, rest) = split_path(path);
        let len = self.len();
        proof {
            assert(self.parcel_model().len() == len);
        }
        let index = match parse_index(name) {
            Some(index) => index,
            None => {
                return Err(ParcelableError::no_field(name));
            },
        };
        if index >= len {
            return Err(ParcelableError::no_field(name));
        }
        let mut item = self.remove(index);
        let done = item.attach(rest, function);
        self.insert(index, item);
        proof {
            let before = old(self).parcel_model();
            assert(self@ =~= old(self)@.update(index as int, item));
            if done is Ok {
                assert(self.parcel_model() =~= before.update(index as int, item.parcel_model()));
            } else {
                assert(self.parcel_model() =~= before);
            }
        }
        done
    }
}

/// The place of the first entry with the name `key`.
pub open spec fn key_position<M>(entries: Seq<(Seq<char>, M)>, key: Seq<char>) -> Option<int>
    decreases entries.len(),
{
    if entries.len() == 0 {
        None
    } else if entries[0].0 == key {
        Some(0int)
    } else {
        match key_position(entries.skip(1), key) {
            Some(i) => Some(i + 1),
            None => None,
        }
    }
}

/// The first entry with a name stands at a place of the entries, carries
/// the name, and no entry before it does.
pub proof fn lemma_key_position<M>(entries: Seq<(Seq<char>, M)>, key: Seq<char>)
    ensures
        match key_position(entries, key) {
            Some(i) => 0 <= i < entries.len() && entries[i].0 == key && forall|k: int|
                0 <= k < i ==> (#[trigger] entries[k]).0 != key,
            None => forall|k: int| 0 <= k < entries.len() ==> (#[trigger] entries[k]).0 != key,
        },
    decreases entries.len(),
{
    if entries.len() > 0 && entries[0].0 != key {
        let rest = entries.skip(1);
        lemma_key_position(rest, key);
        match key_position(rest, key) {
            Some(i) => {
                assert(rest[i] == entries[i + 1]);
                assert forall|k: int| 0 <= k < i + 1 implies (#[trigger] entries[k]).0 != key by {
                    if k > 0 {
                        assert(rest[k - 1] == entries[k]);
                    }
                }
            },
            None => {
                assert forall|k: int| 0 <= k < entries.len() implies (#[trigger] entries[k]).0
                    != key by {
                    if k > 0 {
                        assert(rest[k - 1] == entries[k]);
                    }
                }
            },
        }
    }
}

/// An entry that carries a name, with no entry before it that does, is the
/// first entry with that name.
pub proof fn lemma_key_position_is<M>(entries: Seq<(Seq<char>, M)>, key: Seq<char>, i: int)
    requires
        0 <= i < entries.len(),
        entries[i].0 == key,
        forall|k: int| 0 <= k < i ==> (#[trigger] entries[k]).0 != key,
    ensures
        key_position(entries, key) == Some(i),
{
    lemma_key_position(entries, key);
}

impl<F, V: Parcelable<F>> Parcelable<F> for Table<V> {
    type Model = Seq<(Seq<char>, V::Model)>;

    open spec fn parcel_model(&self) -> Seq<(Seq<char>, V::Model)> {
        Seq::new(
            self.entries@.len(),
            |i: int| (self.entries@[i].0@, self.entries@[i].1.parcel_model()),
        )
    }

    /// A table resolves the child under the first name of the path.
    open spec fn attached(
        model: Seq<(Seq<char>, V::Model)>,
        path: Option<Seq<char>>,
        function: F,
    ) -> Result<Seq<(Seq<char>, V::Model)>, ParcelFault> {
        match path {
            None => Err(ParcelFault::Resolve),
            Some(p) => match key_position(model, head_of(p)) {
                Some(i) => match V::attached(model[i].1, tail_of(p), function) {
                    Ok(m) => Ok(model.update(i, (model[i].0, m))),
                    Err(fault) => Err(fault),
                },
                None => Err(ParcelFault::Field),
            },
        }
    }

    open spec fn kind_of(model: Seq<(Seq<char>, V::Model)>) -> ParcelType {
        ParcelType::Parcelable
    }

    proof fn lemma_slot(model: Seq<(Seq<char>, V::Model)>, function: F) {
    }

    fn resolve(&self) -> (kind: ParcelType) {
        ParcelType::Parcelable
    }

    fn attach(&mut self, path: Option<&str>, function: Arc<F>) -> (done: ParcelableResult<()>) {
        let path = match path {
            Some(path) => path,
            None => {
                return Err(ParcelableError::not_a_slot());
            },
        };
        let (name, rest) = split_path(path);
        let ghost model = self.parcel_model();
        let mut i: usize = 0;
        let mut found = false;
        while i < self.entries.len() && !found
            invariant
                i <= self.entries@.len(),
                model == self.parcel_model(),
                forall|k: int| 0 <= k < i ==> (#[trigger] model[k]).0 != name@,
                found ==> i < self.entries@.len() && self.entries@[i as int].0@ == name@,
            decreases self.entries@.len() - i + if found { 0int } else { 1int },
        {
            proof {
                assert(model[i as int].0 == self.entries@[i as int].0@);
            }
            if str_eq(self.entries[i].0.as_str(), name) {
                found = true;
            } else {
                i += 1;
            }
        }
        if !found {
            proof {
                lemma_key_position(model, name@);
            }
            return Err(ParcelableError::no_field(name));
        }
        proof {
            assert(model[i as int].0 == self.entries@[i as int].0@);
            lemma_key_position_is(model, name@, i as int);
        }
        let (key, mut value) = self.entries.remove(i);
        let done = value.attach(rest, function);
        self.entries.insert(i, (key, value));
        proof {
            assert(self.entries@ =~= old(self).entries@.update(i as int, (key, value)));
            if done is Ok {
                assert(self.parcel_model() =~= model.update(
                    i as int,
                    (model[i as int].0, value.parcel_model()),
                ));
            } else {
                assert(self.parcel_model() =~= model);
            }
        }
        done
    }
}

} // verus!
