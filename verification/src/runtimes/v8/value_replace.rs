//! The first pass of a load: taking the callables out of what a script
//! exposed.

use vstd::prelude::*;

use crate::config::value::{
    child_path, found_model, functions_of, functions_of_fields, functions_of_items, join_path,
    stripped, RawValue,
};
use crate::text::{decimal, index_text};

verus! {

/// The extraction pass: moves the callables out to a map, leaving the key
/// of each in its place.
///
/// Walks the tree that stands at `path`. Every callable is moved to the end
/// of `outmap`, with the dotted path of its place, and leaves a placeholder
/// that carries the same path. Nothing else changes.
pub fn replace<F>(value: RawValue<F>, path: &str, outmap: &mut Vec<(String, F)>) -> (plain:
    RawValue<F>)
    ensures
        plain.model() == stripped(value.model(), path@),
        found_model(final(outmap)@) == found_model(old(outmap)@) + functions_of(
            value.model(),
            path@,
        ),
    decreases value,
{
    match value {
        RawValue::Function(f) => {
            outmap.push((path.to_owned(), f));
            proof {
                assert(found_model(outmap@) =~= found_model(old(outmap)@) + seq![(path@, f)]);
            }
            RawValue::Placeholder(path.to_owned())
        },
        RawValue::List(items) => {
            let ghost all = items@;
            let ghost models = value.model()->List_0;
            let mut plain: Vec<RawValue<F>> = Vec::new();
            for item in it: items
                invariant
                    it.seq() == all,
                    value is List,
                    all == value->List_0@,
                    models == value.model()->List_0,
                    models.len() == all.len(),
                    forall|k: int| 0 <= k < all.len() ==> models[k] == (#[trigger] all[k]).model(),
                    plain@.len() == it.index(),
                    forall|k: int|
                        0 <= k < it.index() ==> (#[trigger] plain@[k]).model() == stripped(
                            models[k],
                            join_path(path@, decimal(k as nat)),
                        ),
                    found_model(outmap@) == found_model(old(outmap)@) + functions_of_items(
                        models,
                        path@,
                        it.index() as nat,
                    ),
            {
                let ghost n = it.index();
                let ghost before = outmap@;
                assert(item == all[n]);
                proof {
                    let ghost held = value->List_0;
                    assert(decreases_to!(held => held[n]));
                }
                let at = child_path(path, index_text(plain.len()).as_str());
                let stripped_item = replace(item, at.as_str(), outmap);
                plain.push(stripped_item);
                proof {
                    assert(found_model(outmap@) =~= found_model(old(outmap)@) + functions_of_items(
                        models,
                        path@,
                        (n + 1) as nat,
                    ));
                }
            }
            let plain_value = RawValue::List(plain);
            proof {
                assert(plain_value.model()->List_0 =~= stripped(value.model(), path@)->List_0);
            }
            plain_value
        },
        RawValue::Object(fields) => {
            let ghost all = fields@;
            let ghost models = value.model()->Object_0;
            let mut plain: Vec<(String, RawValue<F>)> = Vec::new();
            for field in it: fields
                invariant
                    it.seq() == all,
                    value is Object,
                    all == value->Object_0@,
                    models == value.model()->Object_0,
                    models.len() == all.len(),
                    forall|k: int|
                        0 <= k < all.len() ==> models[k] == ((#[trigger] all[k]).0@, all[k].1.model()),
                    plain@.len() == it.index(),
                    forall|k: int|
                        0 <= k < it.index() ==> (#[trigger] plain@[k]).0@ == models[k].0
                            && plain@[k].1.model() == stripped(
                            models[k].1,
                            join_path(path@, models[k].0),
                        ),
                    found_model(outmap@) == found_model(old(outmap)@) + functions_of_fields(
                        models,
                        path@,
                        it.index() as nat,
                    ),
            {
                let ghost n = it.index();
                assert(field == all[n]);
                proof {
                    let ghost held = value->Object_0;
                    assert(decreases_to!(held => held[n]));
                }
                let (name, inner) = field;
                let at = child_path(path, name.as_str());
                let stripped_inner = replace(inner, at.as_str(), outmap);
                plain.push((name, stripped_inner));
                proof {
                    assert(found_model(outmap@) =~= found_model(old(outmap)@)
                        + functions_of_fields(models, path@, (n + 1) as nat));
                }
            }
            let plain_value = RawValue::Object(plain);
            proof {
                assert(plain_value.model()->Object_0 =~= stripped(value.model(), path@)->Object_0);
            }
            plain_value
        },
        other => {
            proof {
                assert(found_model(outmap@) =~= found_model(old(outmap)@) + functions_of(
                    value.model(),
                    path@,
                ));
            }
            other
        },
    }
}

} // verus!
