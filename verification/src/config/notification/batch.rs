//! The batch of rules that fires next.

use itertools::Itertools;
use vstd::prelude::*;

use crate::config::notification::BotNotification;
use crate::config::traits::provider::Provider;

verus! {

/// The rules that fire next, all at the same time, and the time to wait
/// until then. Made when it is asked for, and not kept.
pub struct NotificationBatch<'a, P: Provider> {
    wait_for: u64,
    notifications: Vec<&'a BotNotification<P>>,
}

impl<'a, P: Provider> NotificationBatch<'a, P> {
    /// The seconds to wait.
    pub closed spec fn spec_wait_for(&self) -> u64 {
        self.wait_for
    }

    /// The rules of the batch.
    pub closed spec fn spec_notifications(&self) -> Seq<&'a BotNotification<P>> {
        self.notifications@
    }

    pub fn new(wait_for: u64, notifications: Vec<&'a BotNotification<P>>) -> (batch: Self)
        ensures
            batch.spec_wait_for() == wait_for,
            batch.spec_notifications() == notifications@,
    {
        Self { wait_for, notifications }
    }

    /// The time to wait until the batch fires, in seconds.
    pub fn wait_for(&self) -> (secs: u64)
        ensures
            secs == self.spec_wait_for(),
    {
        self.wait_for
    }

    pub fn notifications(&self) -> (rules: &[&'a BotNotification<P>])
        ensures
            rules@ == self.spec_notifications(),
    {
        self.notifications.as_slice()
    }
}

/// The pairs of `items` whose first part is `key`, in their order.
pub open spec fn with_key(items: Seq<(u64, usize)>, key: u64) -> Seq<(u64, usize)>
    decreases items.len(),
{
    if items.len() == 0 {
        seq![]
    } else {
        let rest = with_key(items.drop_last(), key);
        if items.last().0 == key {
            rest.push(items.last())
        } else {
            rest
        }
    }
}

/// `Itertools::sorted_by_key` of itertools, with the first part of a pair as
/// the key: the pairs in ascending order of their keys. The sort is stable:
/// pairs with the same key come out in the order in which they went in.
#[verifier::external_body]
pub(crate) fn sorted_by_left(items: Vec<(u64, usize)>) -> (sorted: Vec<(u64, usize)>)
    ensures
        sorted@.len() == items@.len(),
        forall|i: int, j: int| 0 <= i < j < sorted@.len() ==> sorted@[i].0 <= sorted@[j].0,
        forall|key: u64| with_key(sorted@, key) == with_key(items@, key),
{
    items.into_iter().sorted_by_key(|pair| pair.0).collect()
}

/// The rules that are worth a sleep, each as the time left and its place:
/// a rule with one second or less left counts as past.
pub open spec fn pending(lefts: Seq<u64>) -> Seq<(u64, usize)>
    decreases lefts.len(),
{
    if lefts.len() == 0 {
        seq![]
    } else {
        let rest = pending(lefts.drop_last());
        if lefts.last() > 1 {
            rest.push((lefts.last(), (lefts.len() - 1) as usize))
        } else {
            rest
        }
    }
}

/// The places at which `lefts` holds `wait`, in ascending order.
pub open spec fn places_of(lefts: Seq<u64>, wait: u64) -> Seq<usize>
    decreases lefts.len(),
{
    if lefts.len() == 0 {
        seq![]
    } else {
        let rest = places_of(lefts.drop_last(), wait);
        if lefts.last() == wait {
            rest.push((lefts.len() - 1) as usize)
        } else {
            rest
        }
    }
}

/// No rule is worth a sleep.
pub open spec fn nothing_pending(lefts: Seq<u64>) -> bool {
    forall|i: int| 0 <= i < lefts.len() ==> lefts[i] <= 1
}

/// `wait` is the least time left among the rules that are worth a sleep.
pub open spec fn is_nearest(lefts: Seq<u64>, wait: u64) -> bool {
    &&& wait > 1
    &&& exists|i: int| 0 <= i < lefts.len() && lefts[i] == wait
    &&& forall|i: int| 0 <= i < lefts.len() && lefts[i] > 1 ==> wait <= lefts[i]
}

/// The second parts of the pairs.
pub open spec fn second_parts(items: Seq<(u64, usize)>) -> Seq<usize> {
    Seq::new(items.len(), |i: int| items[i].1)
}

/// What `with_key` keeps is in the sequence and has the key.
pub proof fn lemma_with_key_sound(items: Seq<(u64, usize)>, key: u64, k: int)
    requires
        0 <= k < with_key(items, key).len(),
    ensures
        with_key(items, key)[k].0 == key,
        items.contains(with_key(items, key)[k]),
    decreases items.len(),
{
    if items.len() > 0 {
        let rest = with_key(items.drop_last(), key);
        if k < rest.len() {
            lemma_with_key_sound(items.drop_last(), key, k);
            let x = rest[k];
            let at = choose|i: int| 0 <= i < items.drop_last().len() && items.drop_last()[i] == x;
            assert(items[at] == x);
        } else {
            assert(items[items.len() - 1] == items.last());
        }
    }
}

/// `with_key` keeps every pair that has the key.
pub proof fn lemma_with_key_complete(items: Seq<(u64, usize)>, i: int)
    requires
        0 <= i < items.len(),
    ensures
        with_key(items, items[i].0).contains(items[i]),
    decreases items.len(),
{
    let key = items[i].0;
    let rest = with_key(items.drop_last(), key);
    if i < items.len() - 1 {
        lemma_with_key_complete(items.drop_last(), i);
        let at = choose|k: int| 0 <= k < rest.len() && rest[k] == items.drop_last()[i];
        assert(with_key(items, key)[at] == items[i]);
    } else {
        assert(with_key(items, key)[rest.len() as int] == items[i]);
    }
}

/// Every pending pair holds a time above one second and the place at which
/// that time stands.
pub proof fn lemma_pending_sound(lefts: Seq<u64>, k: int)
    requires
        0 <= k < pending(lefts).len(),
        lefts.len() <= usize::MAX,
    ensures
        pending(lefts)[k].0 > 1,
        pending(lefts)[k].1 < lefts.len(),
        lefts[pending(lefts)[k].1 as int] == pending(lefts)[k].0,
    decreases lefts.len(),
{
    if lefts.len() > 0 {
        let rest = pending(lefts.drop_last());
        if k < rest.len() {
            lemma_pending_sound(lefts.drop_last(), k);
        }
    }
}

/// Every time above one second stands among the pending pairs.
pub proof fn lemma_pending_complete(lefts: Seq<u64>, i: int)
    requires
        0 <= i < lefts.len(),
        lefts[i] > 1,
        lefts.len() <= usize::MAX,
    ensures
        pending(lefts).contains((lefts[i], i as usize)),
    decreases lefts.len(),
{
    let rest = pending(lefts.drop_last());
    if i < lefts.len() - 1 {
        lemma_pending_complete(lefts.drop_last(), i);
        let at = choose|k: int| 0 <= k < rest.len() && rest[k] == (lefts[i], i as usize);
        assert(pending(lefts)[at] == (lefts[i], i as usize));
    } else {
        assert(pending(lefts)[rest.len() as int] == (lefts[i], i as usize));
    }
}

/// The pending pairs with the key `wait` hold the places at which `wait`
/// stands.
pub proof fn lemma_pending_places(lefts: Seq<u64>, wait: u64)
    requires
        wait > 1,
        lefts.len() <= usize::MAX,
    ensures
        second_parts(with_key(pending(lefts), wait)) == places_of(lefts, wait),
    decreases lefts.len(),
{
    if lefts.len() > 0 {
        lemma_pending_places(lefts.drop_last(), wait);
        let rest = pending(lefts.drop_last());
        if lefts.last() > 1 {
            let pair = (lefts.last(), (lefts.len() - 1) as usize);
            assert(pending(lefts) == rest.push(pair));
            assert(pending(lefts).drop_last() =~= rest);
            if lefts.last() == wait {
                assert(with_key(pending(lefts), wait) == with_key(rest, wait).push(pair));
                assert(second_parts(with_key(rest, wait).push(pair)) =~= second_parts(
                    with_key(rest, wait),
                ).push(pair.1));
            }
        }
    } else {
        assert(second_parts(with_key(pending(lefts), wait)) =~= places_of(lefts, wait));
    }
}

/// Picks the rules that fire next: the least time left among the rules
/// that have more than one second left, and the places of all the rules
/// with exactly that time left, in their order. `None` where no rule has
/// more than one second left.
pub fn nearest_batch(lefts: &Vec<u64>) -> (nearest: Option<(u64, Vec<usize>)>)
    ensures
        match nearest {
            None => nothing_pending(lefts@),
            Some((wait, places)) => is_nearest(lefts@, wait) && places@ == places_of(lefts@, wait),
        },
{
    let mut pairs: Vec<(u64, usize)> = Vec::new();
    let mut i: usize = 0;
    while i < lefts.len()
        invariant
            i <= lefts@.len(),
            pairs@ == pending(lefts@.take(i as int)),
        decreases lefts@.len() - i,
    {
        proof {
            assert(lefts@.take(i + 1).drop_last() =~= lefts@.take(i as int));
        }
        if lefts[i] > 1 {
            pairs.push((lefts[i], i));
        }
        i += 1;
    }
    proof {
        assert(lefts@.take(i as int) =~= lefts@);
    }
    let ordered = sorted_by_left(pairs);
    if ordered.len() == 0 {
        proof {
            assert forall|k: int| 0 <= k < lefts@.len() implies lefts@[k] <= 1 by {
                if lefts@[k] > 1 {
                    lemma_pending_complete(lefts@, k);
                }
            }
        }
        return None;
    }
    let wait = ordered[0].0;
    proof {
        // the first of the ordered pairs is a pending pair
        lemma_with_key_complete(ordered@, 0);
        let found = with_key(pairs@, wait);
        let at = choose|k: int| 0 <= k < found.len() && found[k] == ordered@[0];
        lemma_with_key_sound(pairs@, wait, at);
        let origin = choose|k: int| 0 <= k < pairs@.len() && pairs@[k] == ordered@[0];
        lemma_pending_sound(lefts@, origin);
        // and no pending pair has less time left
        assert forall|k: int| 0 <= k < lefts@.len() && lefts@[k] > 1 implies wait <= lefts@[k] by {
            lemma_pending_complete(lefts@, k);
            let pair = (lefts@[k], k as usize);
            let p = choose|p: int| 0 <= p < pairs@.len() && pairs@[p] == pair;
            lemma_with_key_complete(pairs@, p);
            let kept = with_key(ordered@, pair.0);
            let q = choose|q: int| 0 <= q < kept.len() && kept[q] == pair;
            lemma_with_key_sound(ordered@, pair.0, q);
            let place = choose|r: int| 0 <= r < ordered@.len() && ordered@[r] == pair;
            assert(ordered@[0].0 <= ordered@[place].0);
        }
        lemma_pending_places(lefts@, wait);
    }
    // get all that should be sent at the same time
    let mut places: Vec<usize> = Vec::new();
    let mut j: usize = 0;
    while j < ordered.len()
        invariant
            j <= ordered@.len(),
            places@ == second_parts(with_key(ordered@.take(j as int), wait)),
        decreases ordered@.len() - j,
    {
        proof {
            assert(ordered@.take(j + 1).drop_last() =~= ordered@.take(j as int));
            let before = with_key(ordered@.take(j as int), wait);
            if ordered@[j as int].0 == wait {
                assert(second_parts(before.push(ordered@[j as int])) =~= second_parts(before).push(
                    ordered@[j as int].1,
                ));
            }
        }
        if ordered[j].0 == wait {
            places.push(ordered[j].1);
        }
        j += 1;
    }
    proof {
        assert(ordered@.take(j as int) =~= ordered@);
    }
    Some((wait, places))
}

} // verus!
