//! Tables from names to values.

use vstd::prelude::*;

use crate::text::str_eq;

verus! {

/// A map from names to values, kept in the order in which the names came.
/// No name occurs twice.
pub struct Table<V> {
    pub entries: Vec<(String, V)>,
}

/// No two entries have the same name.
pub open spec fn keys_distinct<V>(entries: Seq<(String, V)>) -> bool {
    forall|i: int, j: int|
        0 <= i < j < entries.len() ==> (#[trigger] entries[i]).0@ != (#[trigger] entries[j]).0@
}

/// The entries hold the name `key`.
pub open spec fn has_key<V>(entries: Seq<(String, V)>, key: Seq<char>) -> bool {
    exists|i: int| 0 <= i < entries.len() && (#[trigger] entries[i]).0@ == key
}

/// The place of the entry with the name `key`.
pub open spec fn key_index<V>(entries: Seq<(String, V)>, key: Seq<char>) -> int {
    choose|i: int| 0 <= i < entries.len() && (#[trigger] entries[i]).0@ == key
}

/// Among distinct names, the entry found under a name is the one that
/// carries it.
pub proof fn lemma_key_index<V>(entries: Seq<(String, V)>, i: int)
    requires
        keys_distinct(entries),
        0 <= i < entries.len(),
    ensures
        has_key(entries, entries[i].0@),
        key_index(entries, entries[i].0@) == i,
{
    let key = entries[i].0@;
    assert(has_key(entries, key));
    let j = key_index(entries, key);
    if j < i {
        assert(entries[j].0@ != entries[i].0@);
    } else if i < j {
        assert(entries[i].0@ != entries[j].0@);
    }
}

impl<V> Table<V> {
    /// The table's invariant: one entry per name.
    pub open spec fn wf(&self) -> bool {
        keys_distinct(self.entries@)
    }

    /// Whether the table holds the name `key`.
    pub open spec fn spec_contains_key(&self, key: Seq<char>) -> bool {
        has_key(self.entries@, key)
    }

    /// The value under the name `key`, if the table holds the name.
    pub open spec fn spec_get(&self, key: Seq<char>) -> Option<V> {
        if has_key(self.entries@, key) {
            Some(self.entries@[key_index(self.entries@, key)].1)
        } else {
            None
        }
    }

    /// An empty table.
    pub fn new() -> (table: Self)
        ensures
            table.wf(),
            table.entries@.len() == 0,
            forall|key: Seq<char>| table.spec_get(key) is None,
    {
        Table { entries: Vec::new() }
    }

    /// The number of entries.
    pub fn len(&self) -> (n: usize)
        ensures
            n == self.entries@.len(),
    {
        self.entries.len()
    }

    /// The place of the entry with the name `key`.
    pub fn position(&self, key: &str) -> (found: Option<usize>)
        requires
            self.wf(),
        ensures
            found is Some <==> self.spec_contains_key(key@),
            found matches Some(i) ==> i < self.entries@.len() && self.entries@[i as int].0@ == key@
                && self.spec_get(key@) == Some(self.entries@[i as int].1),
    {
        let mut i: usize = 0;
        while i < self.entries.len()
            invariant
                self.wf(),
                i <= self.entries@.len(),
                forall|k: int| 0 <= k < i ==> (#[trigger] self.entries@[k]).0@ != key@,
            decreases self.entries@.len() - i,
        {
            if str_eq(self.entries[i].0.as_str(), key) {
                proof {
                    lemma_key_index(self.entries@, i as int);
                }
                return Some(i);
            }
            i += 1;
        }
        None
    }

    /// Whether the table holds the name `key`.
    pub fn contains_key(&self, key: &str) -> (held: bool)
        requires
            self.wf(),
        ensures
            held == self.spec_contains_key(key@),
    {
        self.position(key).is_some()
    }

    /// The value under the name `key`.
    pub fn get(&self, key: &str) -> (value: Option<&V>)
        requires
            self.wf(),
        ensures
            match value {
                Some(v) => self.spec_get(key@) == Some(*v),
                None => self.spec_get(key@) is None,
            },
    {
        match self.position(key) {
            Some(i) => Some(&self.entries[i].1),
            None => None,
        }
    }

    /// Puts `value` under the name `key`; a value that stood there is
    /// handed back. No other entry changes.
    pub fn insert(&mut self, key: String, value: V) -> (previous: Option<V>)
        requires
            old(self).wf(),
        ensures
            final(self).wf(),
            previous == old(self).spec_get(key@),
            final(self).spec_get(key@) == Some(value),
            forall|other: Seq<char>|
                other != key@ ==> final(self).spec_get(other) == old(self).spec_get(other),
            final(self).entries@.len() == old(self).entries@.len() + if previous is Some {
                0int
            } else {
                1int
            },
            previous is None ==> final(self).entries@ == old(self).entries@.push((key, value)),
    {
        match self.position(key.as_str()) {
            Some(i) => {
                let removed = self.entries.remove(i);
                self.entries.insert(i, (key, value));
                proof {
                    assert(self.entries@ =~= old(self).entries@.update(i as int, (key, value)));
                    lemma_replaced(old(self).entries@, self.entries@, i as int);
                }
                Some(removed.1)
            },
            None => {
                self.entries.push((key, value));
                proof {
                    assert(self.entries@.drop_last() =~= old(self).entries@);
                    lemma_pushed(old(self).entries@, self.entries@);
                }
                None
            },
        }
    }

    /// Takes the entry with the name `key` out of the table. No other entry
    /// changes.
    pub fn remove(&mut self, key: &str) -> (previous: Option<V>)
        requires
            old(self).wf(),
        ensures
            final(self).wf(),
            previous == old(self).spec_get(key@),
            final(self).spec_get(key@) is None,
            forall|other: Seq<char>|
                other != key@ ==> final(self).spec_get(other) == old(self).spec_get(other),
    {
        match self.position(key) {
            Some(i) => {
                let removed = self.entries.remove(i);
                proof {
                    lemma_removed(old(self).entries@, self.entries@, i as int);
                }
                Some(removed.1)
            },
            None => None,
        }
    }
}

/// Replacing an entry by one of the same name changes what stands under
/// that name, and nothing else.
pub proof fn lemma_replaced<V>(before: Seq<(String, V)>, after: Seq<(String, V)>, i: int)
    requires
        keys_distinct(before),
        0 <= i < before.len(),
        after == before.update(i, after[i]),
        after[i].0@ == before[i].0@,
    ensures
        keys_distinct(after),
        has_key(after, after[i].0@),
        key_index(after, after[i].0@) == i,
        forall|other: Seq<char>|
            other != after[i].0@ ==> (has_key(after, other) == has_key(before, other)),
        forall|other: Seq<char>|
            other != after[i].0@ && has_key(before, other) ==> after[key_index(after, other)]
                == before[key_index(before, other)],
{
    assert(after.len() == before.len());
    assert forall|a: int, b: int| 0 <= a < b < after.len() implies (#[trigger] after[a]).0@ != (
    #[trigger] after[b]).0@ by {
        assert(after[a].0@ == before[a].0@);
        assert(after[b].0@ == before[b].0@);
    }
    lemma_key_index(after, i);
    assert forall|other: Seq<char>| other != after[i].0@ implies (has_key(after, other) == has_key(
        before,
        other,
    )) by {
        if has_key(before, other) {
            let k = key_index(before, other);
            assert(after[k].0@ == other);
        }
        if has_key(after, other) {
            let k = key_index(after, other);
            assert(before[k].0@ == other);
        }
    }
    assert forall|other: Seq<char>|
        other != after[i].0@ && has_key(before, other) implies after[key_index(after, other)]
        == before[key_index(before, other)] by {
        let k = key_index(before, other);
        assert(after[k].0@ == other);
        lemma_key_index(after, k);
    }
}

/// Adding an entry under a name that is not held changes what stands under
/// that name, and nothing else.
pub proof fn lemma_pushed<V>(before: Seq<(String, V)>, after: Seq<(String, V)>)
    requires
        keys_distinct(before),
        after.len() == before.len() + 1,
        after.drop_last() == before,
        !has_key(before, after.last().0@),
    ensures
        keys_distinct(after),
        has_key(after, after.last().0@),
        key_index(after, after.last().0@) == before.len(),
        forall|other: Seq<char>|
            other != after.last().0@ ==> (has_key(after, other) == has_key(before, other)),
        forall|other: Seq<char>|
            other != after.last().0@ && has_key(before, other) ==> after[key_index(after, other)]
                == before[key_index(before, other)],
{
    let n = before.len() as int;
    assert forall|k: int| 0 <= k < n implies #[trigger] after[k] == before[k] by {
        assert(after.drop_last()[k] == after[k]);
    }
    assert forall|a: int, b: int| 0 <= a < b < after.len() implies (#[trigger] after[a]).0@ != (
    #[trigger] after[b]).0@ by {
        if b < n {
            assert(after[a] == before[a] && after[b] == before[b]);
        } else {
            assert(after[a] == before[a]);
            assert(before[a].0@ != after.last().0@);
        }
    }
    lemma_key_index(after, n);
    assert forall|other: Seq<char>| other != after.last().0@ implies (has_key(after, other)
        == has_key(before, other)) by {
        if has_key(before, other) {
            let k = key_index(before, other);
            assert(after[k].0@ == other);
        }
        if has_key(after, other) {
            let k = key_index(after, other);
            assert(before[k].0@ == other);
        }
    }
    assert forall|other: Seq<char>|
        other != after.last().0@ && has_key(before, other) implies after[key_index(after, other)]
        == before[key_index(before, other)] by {
        let k = key_index(before, other);
        assert(after[k].0@ == other);
        lemma_key_index(after, k);
    }
}

/// Removing an entry empties what stands under its name, and changes
/// nothing else.
pub proof fn lemma_removed<V>(before: Seq<(String, V)>, after: Seq<(String, V)>, i: int)
    requires
        keys_distinct(before),
        0 <= i < before.len(),
        after == before.remove(i),
    ensures
        keys_distinct(after),
        !has_key(after, before[i].0@),
        forall|other: Seq<char>|
            other != before[i].0@ ==> (has_key(after, other) == has_key(before, other)),
        forall|other: Seq<char>|
            other != before[i].0@ && has_key(before, other) ==> after[key_index(after, other)]
                == before[key_index(before, other)],
{
    let name = before[i].0@;
    let shift = |k: int|
        if k < i {
            k
        } else {
            k + 1
        };
    assert forall|k: int| 0 <= k < after.len() implies #[trigger] after[k] == before[shift(k)] by {}
    assert forall|a: int, b: int| 0 <= a < b < after.len() implies (#[trigger] after[a]).0@ != (
    #[trigger] after[b]).0@ by {
        assert(after[a] == before[shift(a)]);
        assert(after[b] == before[shift(b)]);
        assert(before[shift(a)].0@ != before[shift(b)].0@);
    }
    if has_key(after, name) {
        let k = key_index(after, name);
        assert(after[k] == before[shift(k)]);
        lemma_key_index(before, shift(k));
        lemma_key_index(before, i);
    }
    assert forall|other: Seq<char>| other != name implies (has_key(after, other) == has_key(
        before,
        other,
    )) by {
        if has_key(before, other) {
            let k = key_index(before, other);
            let k2 = if k < i {
                k
            } else {
                k - 1
            };
            assert(after[k2] == before[shift(k2)]);
            assert(after[k2].0@ == other);
        }
        if has_key(after, other) {
            let k = key_index(after, other);
            assert(after[k] == before[shift(k)]);
            assert(before[shift(k)].0@ == other);
        }
    }
    assert forall|other: Seq<char>| other != name && has_key(before, other) implies after[key_index(
        after,
        other,
    )] == before[key_index(before, other)] by {
        let k = key_index(before, other);
        let k2 = if k < i {
            k
        } else {
            k - 1
        };
        assert(after[k2] == before[shift(k2)]);
        assert(after[k2].0@ == other);
        lemma_key_index(after, k2);
    }
}

} // verus!
