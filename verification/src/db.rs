//! The records of the store that the rules of the host speak of.

pub mod bots;

use vstd::prelude::*;

use crate::botscript::message_info::{optional_text_model, optional_text_raw};
use crate::config::value::{fields_model, lemma_model_parts, RawModel, RawValue};

verus! {

/// A kind of record that has a collection of its own in the store.
pub trait DbCollection {
    /// The name of the collection.
    const COLLECTION: &'static str;
}

/// A user of a bot, as the store holds it.
pub struct User {
    pub id: i64,
    pub is_admin: bool,
    pub first_name: String,
    pub last_name: Option<String>,
    pub username: Option<String>,
    pub language_code: Option<String>,
    pub metas: Vec<String>,
}

/// The characters of a text that may be missing.
pub open spec fn chars_in(text: Option<String>) -> Option<Seq<char>> {
    match text {
        Some(t) => Some(t@),
        None => None,
    }
}

/// The plain data that stands for a list of texts.
pub open spec fn texts_model<F>(texts: Seq<String>) -> RawModel<F> {
    RawModel::List(Seq::new(texts.len(), |i: int| RawModel::Text(texts[i]@)))
}

/// The plain data that stands for a user: an object with the fields `id`,
/// `is_admin`, `first_name`, `last_name`, `username`, `language_code` and
/// `metas`; a name that is missing is `Null`.
pub open spec fn user_model<F>(user: User) -> RawModel<F> {
    RawModel::Object(
        seq![
            ("id"@, RawModel::Int(user.id)),
            ("is_admin"@, RawModel::Bool(user.is_admin)),
            ("first_name"@, RawModel::Text(user.first_name@)),
            ("last_name"@, optional_text_model(chars_in(user.last_name))),
            ("username"@, optional_text_model(chars_in(user.username))),
            ("language_code"@, optional_text_model(chars_in(user.language_code))),
            ("metas"@, texts_model(user.metas@)),
        ],
    )
}

impl User {
    /// The user as plain data for the script.
    pub fn to_raw<F>(&self) -> (raw: RawValue<F>)
        ensures
            raw.model() == user_model::<F>(*self),
    {
        let mut metas: Vec<RawValue<F>> = Vec::new();
        let mut i: usize = 0;
        while i < self.metas.len()
            invariant
                i <= self.metas@.len(),
                metas@.len() == i,
                forall|k: int|
                    0 <= k < i ==> (#[trigger] metas@[k]).model() == RawModel::<F>::Text(
                        self.metas@[k]@,
                    ),
            decreases self.metas@.len() - i,
        {
            metas.push(RawValue::Text(self.metas[i].clone()));
            i += 1;
        }
        let metas = RawValue::List(metas);
        proof {
            lemma_model_parts(metas);
            assert(metas.model()->List_0 =~= texts_model::<F>(self.metas@)->List_0);
            assert(metas.model() == texts_model::<F>(self.metas@));
        }
        let mut fields: Vec<(String, RawValue<F>)> = Vec::new();
        fields.push(("id".to_owned(), RawValue::Int(self.id)));
        fields.push(("is_admin".to_owned(), RawValue::Bool(self.is_admin)));
        fields.push(("first_name".to_owned(), RawValue::Text(self.first_name.clone())));
        fields.push(("last_name".to_owned(), optional_text_raw(&self.last_name)));
        fields.push(("username".to_owned(), optional_text_raw(&self.username)));
        fields.push(("language_code".to_owned(), optional_text_raw(&self.language_code)));
        fields.push(("metas".to_owned(), metas));
        let raw = RawValue::Object(fields);
        proof {
            lemma_model_parts(raw);
            let built = fields_model(fields@);
            let wanted = user_model::<F>(*self)->Object_0;
            assert(built.len() == 7);
            assert(built[0] == wanted[0]);
            assert(built[1] == wanted[1]);
            assert(built[2] == wanted[2]);
            assert(built[3] == wanted[3]);
            assert(built[4] == wanted[4]);
            assert(built[5] == wanted[5]);
            assert(built[6] == wanted[6]);
            assert(built =~= wanted);
        }
        raw
    }

    /// The user with the names and the language that the chat transport
    /// tells of it.
    pub fn update_user_tg(
        self,
        first_name: String,
        last_name: Option<String>,
        username: Option<String>,
        language_code: Option<String>,
    ) -> (updated: User)
        ensures
            updated.first_name == first_name,
            updated.last_name == last_name,
            updated.username == username,
            updated.language_code == language_code,
            updated.id == self.id,
            updated.is_admin == self.is_admin,
            updated.metas == self.metas,
    {
        User {
            id: self.id,
            is_admin: self.is_admin,
            first_name,
            last_name,
            username,
            language_code,
            metas: self.metas,
        }
    }
}

} // verus!
