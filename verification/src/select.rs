//! Picking entries of a table by what they hold.

use crate::sums::views;
use crate::table::{Table, TableKey};
use vstd::prelude::*;

verus! {

/// A condition on the values of a table.
pub trait Condition<V> {
    spec fn holds(&self, value: V) -> bool;

    fn check(&self, value: &V) -> (held: bool)
        ensures
            held == self.holds(*value),
    ;
}

/// A condition on the entries of a table.
pub trait EntryCondition<K: TableKey, V> {
    spec fn holds(&self, key: K::V, value: V) -> bool;

    fn check(&self, key: &K, value: &V) -> (held: bool)
        ensures
            held == self.holds(key@, *value),
    ;
}

struct ByValue<'a, C> {
    condition: &'a C,
}

impl<'a, K: TableKey, V, C: Condition<V>> EntryCondition<K, V> for ByValue<'a, C> {
    closed spec fn holds(&self, key: K::V, value: V) -> bool {
        self.condition.holds(value)
    }

    fn check(&self, key: &K, value: &V) -> (held: bool) {
        self.condition.check(value)
    }
}

/// The keys of the entries that meet a condition, each once. The order is not
/// fixed.
pub fn select_entries<K: TableKey, V, C: EntryCondition<K, V>>(table: &Table<K, V>, condition: &C) -> (found: Vec<K>)
    requires
        table.wf(),
    ensures
        views(found@).no_duplicates(),
        forall|k: K::V| #[trigger]
            views(found@).contains(k) <==> table@.contains_key(k) && condition.holds(k, table@[k]),
{
    let ghost keys = table.keys();
    let n: usize = table.len();
    let mut found: Vec<K> = Vec::new();
    let mut i: usize = 0;
    proof {
        table.lemma_keys();
    }
    while i < n
        invariant
            table.wf(),
            keys == table.keys(),
            keys.no_duplicates(),
            n == keys.len(),
            i <= n,
            views(found@).no_duplicates(),
            forall|k: K::V| #[trigger]
                views(found@).contains(k) <==> (exists|j: int|
                    0 <= j < i && #[trigger] keys[j] == k && condition.holds(k, table@[k])),
        decreases n - i,
    {
        let value = table.value_at(i);
        let place = table.key_at(i);
        let ghost before = views(found@);
        let ghost at = i as int;
        if condition.check(place, value) {
            let key = place.duplicate();
            found.push(key);
            proof {
                let after = views(found@);
                assert(after =~= before.push(key@));
                assert(key@ == keys[at]);
                assert(!before.contains(key@)) by {
                    if before.contains(key@) {
                        let j = choose|j: int|
                            0 <= j < at && #[trigger] keys[j] == key@ && condition.holds(
                                key@,
                                table@[key@],
                            );
                        assert(keys[j] == keys[at]);
                    }
                }
                assert forall|k: K::V| #[trigger] after.contains(k) <==> (exists|j: int|
                    0 <= j < at + 1 && #[trigger] keys[j] == k && condition.holds(k, table@[k])) by {
                    if after.contains(k) {
                        let x = choose|x: int| 0 <= x < after.len() && after[x] == k;
                        if x < before.len() {
                            assert(before[x] == k);
                            assert(before.contains(k));
                        } else {
                            assert(keys[at] == k);
                        }
                    }
                    if exists|j: int|
                        0 <= j < at + 1 && #[trigger] keys[j] == k && condition.holds(k, table@[k]) {
                        let j = choose|j: int|
                            0 <= j < at + 1 && #[trigger] keys[j] == k && condition.holds(k, table@[k]);
                        if j < at {
                            assert(before.contains(k));
                            let x = choose|x: int| 0 <= x < before.len() && before[x] == k;
                            assert(after[x] == k);
                        } else {
                            assert(after[before.len() as int] == k);
                        }
                    }
                }
            }
        } else {
            proof {
                assert forall|k: K::V| #[trigger] before.contains(k) <==> (exists|j: int|
                    0 <= j < at + 1 && #[trigger] keys[j] == k && condition.holds(k, table@[k])) by {
                    if exists|j: int|
                        0 <= j < at + 1 && #[trigger] keys[j] == k && condition.holds(k, table@[k]) {
                        let j = choose|j: int|
                            0 <= j < at + 1 && #[trigger] keys[j] == k && condition.holds(k, table@[k]);
                        assert(j < at);
                    }
                }
            }
        }
        i = i + 1;
    }
    proof {
        table.lemma_keys();
        assert forall|k: K::V| #[trigger] views(found@).contains(k) <==> table@.contains_key(k)
            && condition.holds(k, table@[k]) by {
            if table@.contains_key(k) && condition.holds(k, table@[k]) {
                assert(keys.contains(k));
                let j = choose|j: int| 0 <= j < keys.len() && keys[j] == k;
                assert(keys[j] == k);
            }
        }
    }
    found
}

/// The keys of the entries whose value meets a condition, each once. The order
/// is not fixed.
pub fn select<K: TableKey, V, C: Condition<V>>(table: &Table<K, V>, condition: &C) -> (found: Vec<K>)
    requires
        table.wf(),
    ensures
        views(found@).no_duplicates(),
        forall|k: K::V| #[trigger]
            views(found@).contains(k) <==> table@.contains_key(k) && condition.holds(table@[k]),
{
    let by_value = ByValue { condition };
    let found = select_entries(table, &by_value);
    proof {
        assert forall|k: K::V| #[trigger] views(found@).contains(k) <==> table@.contains_key(k)
            && condition.holds(table@[k]) by {
            assert(EntryCondition::<K, V>::holds(&by_value, k, table@[k]) == condition.holds(
                table@[k],
            ));
        }
    }
    found
}

/// The keys of the entries whose value meets a condition.
pub open spec fn picked<K, V>(entries: Map<K, V>, pick: spec_fn(V) -> bool) -> Set<K> {
    entries.dom().filter(|k: K| pick(entries[k]))
}

/// Counts the entries whose value meets a condition.
pub fn count<K: TableKey, V, C: Condition<V>>(table: &Table<K, V>, condition: &C) -> (n: usize)
    requires
        table.wf(),
    ensures
        n == picked(table@, |v: V| condition.holds(v)).len(),
{
    let found = select(table, condition);
    proof {
        let set = picked(table@, |v: V| condition.holds(v));
        assert(views(found@).to_set() =~= set) by {
            assert forall|k: K::V| views(found@).to_set().contains(k) <==> set.contains(k) by {
                assert(views(found@).to_set().contains(k) <==> views(found@).contains(k));
            }
        }
        views(found@).unique_seq_to_set();
    }
    found.len()
}

/// Whether the value of some entry meets a condition.
pub fn any<K: TableKey, V, C: Condition<V>>(table: &Table<K, V>, condition: &C) -> (found: bool)
    requires
        table.wf(),
    ensures
        found == (exists|k: K::V| #[trigger]
            table@.contains_key(k) && condition.holds(table@[k])),
{
    let keys = select(table, condition);
    if keys.len() > 0 {
        assert(views(keys@)[0] == keys@[0]@);
        assert(views(keys@).contains(keys@[0]@));
        true
    } else {
        proof {
            assert forall|k: K::V| #[trigger] table@.contains_key(k) implies !condition.holds(
                table@[k],
            ) by {
                assert(!views(keys@).contains(k));
            }
        }
        false
    }
}

/// Takes entries out of a table.
pub fn drop_all<K: TableKey, V>(table: &mut Table<K, V>, keys: &Vec<K>)
    requires
        old(table).wf(),
    ensures
        final(table).wf(),
        final(table)@ == old(table)@.remove_keys(views(keys@).to_set()),
{
    let ghost before = table@;
    let mut i: usize = 0;
    assert(before.remove_keys(views(keys@).take(0).to_set()) =~= before);
    while i < keys.len()
        invariant
            table.wf(),
            i <= keys@.len(),
            table@ == before.remove_keys(views(keys@).take(i as int).to_set()),
        decreases keys@.len() - i,
    {
        let _ = table.remove(&keys[i]);
        proof {
            let seen = views(keys@).take(i as int);
            let next = views(keys@).take(i + 1);
            assert(next =~= seen.push(keys@[i as int]@));
            assert forall|k: K::V| next.to_set().contains(k) <==> seen.to_set().contains(k) || k
                == keys@[i as int]@ by {
                if seen.contains(k) {
                    let x = choose|x: int| 0 <= x < seen.len() && seen[x] == k;
                    assert(next[x] == k);
                }
                if k == keys@[i as int]@ {
                    assert(next[i as int] == k);
                }
                if next.contains(k) {
                    let x = choose|x: int| 0 <= x < next.len() && next[x] == k;
                    if x < seen.len() {
                        assert(seen[x] == k);
                    }
                }
            }
            assert(table@ =~= before.remove_keys(next.to_set()));
        }
        i = i + 1;
    }
    assert(views(keys@).take(i as int) =~= views(keys@));
}

} // verus!
