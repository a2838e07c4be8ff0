//! Sums of natural numbers over finite maps and sequences.

use vstd::prelude::*;

verus! {

/// The views of the elements of a sequence.
pub open spec fn views<T: View>(s: Seq<T>) -> Seq<T::V> {
    s.map_values(|x: T| x@)
}

/// The views of the lists in a map.
pub open spec fn lists<K, T: View>(m: Map<K, Vec<T>>) -> Map<K, Seq<T::V>> {
    Map::new(|k: K| m.contains_key(k), |k: K| views(m[k]@))
}

/// The views of the values in a map.
pub open spec fn viewed<K, T: View>(m: Map<K, T>) -> Map<K, T::V> {
    Map::new(|k: K| m.contains_key(k), |k: K| m[k]@)
}

/// The sum of a sequence of numbers.
pub open spec fn sum(s: Seq<nat>) -> nat
    decreases s.len(),
{
    if s.len() == 0 {
        0
    } else {
        sum(s.drop_last()) + s.last()
    }
}

/// The sum of the values of a finite map.
pub open spec fn total<K>(m: Map<K, nat>) -> nat
    decreases m.dom().len(),
{
    if m.dom().finite() && m.dom().len() > 0 {
        let k = m.dom().choose();
        m[k] + total(m.remove(k))
    } else {
        0
    }
}

/// The sum of what a map gives for the keys in a sequence.
pub open spec fn sum_at<K>(keys: Seq<K>, m: Map<K, nat>) -> nat
    decreases keys.len(),
{
    if keys.len() == 0 {
        0
    } else {
        sum_at(keys.drop_last(), m) + m[keys.last()]
    }
}

/// Any entry can be taken out of a sum first.
pub proof fn lemma_total_remove<K>(m: Map<K, nat>, k: K)
    requires
        m.dom().finite(),
        m.contains_key(k),
    ensures
        total(m) == m[k] + total(m.remove(k)),
    decreases m.dom().len(),
{
    assert(m.dom().len() > 0) by {
        if m.dom().len() == 0 {
            assert(m.dom() =~= Set::<K>::empty());
        }
    }
    let c = m.dom().choose();
    assert(m.dom().contains(c));
    assert(m.remove(c).dom() =~= m.dom().remove(c));
    assert(m.remove(k).dom() =~= m.dom().remove(k));
    if c != k {
        lemma_total_remove(m.remove(c), k);
        lemma_total_remove(m.remove(k), c);
        assert(m.remove(c).remove(k) =~= m.remove(k).remove(c));
    }
}

proof fn lemma_sum_at_agrees<K>(keys: Seq<K>, m: Map<K, nat>, n: Map<K, nat>)
    requires
        forall|i: int| 0 <= i < keys.len() ==> m[#[trigger] keys[i]] == n[keys[i]],
    ensures
        sum_at(keys, m) == sum_at(keys, n),
    decreases keys.len(),
{
    if keys.len() > 0 {
        assert forall|i: int| 0 <= i < keys.drop_last().len() implies m[#[trigger] keys.drop_last()[i]]
            == n[keys.drop_last()[i]] by {
            assert(keys.drop_last()[i] == keys[i]);
        }
        assert(keys.last() == keys[keys.len() - 1]);
        lemma_sum_at_agrees(keys.drop_last(), m, n);
    }
}

/// Walking the keys of a map in any order gives its sum.
pub proof fn lemma_sum_at_total<K>(keys: Seq<K>, m: Map<K, nat>)
    requires
        keys.no_duplicates(),
        keys.to_set() == m.dom(),
    ensures
        sum_at(keys, m) == total(m),
    decreases keys.len(),
{
    keys.unique_seq_to_set();
    if keys.len() == 0 {
        assert(m.dom().len() == 0);
    } else {
        let k = keys.last();
        let rest = keys.drop_last();
        assert(keys[keys.len() - 1] == k);
        assert(keys.to_set().contains(k)) by {
            assert(keys.contains(k));
        }
        lemma_total_remove(m, k);
        assert(rest.to_set() =~= m.remove(k).dom()) by {
            assert forall|x: K| rest.to_set().contains(x) <==> m.remove(k).dom().contains(x) by {
                if rest.contains(x) {
                    let i = choose|i: int| 0 <= i < rest.len() && rest[i] == x;
                    assert(keys[i] == x);
                    assert(keys.contains(x));
                    assert(keys.to_set().contains(x));
                }
                if m.remove(k).dom().contains(x) {
                    assert(keys.to_set().contains(x));
                    let i = choose|i: int| 0 <= i < keys.len() && keys[i] == x;
                    assert(rest[i] == x);
                }
            }
        }
        assert(rest.no_duplicates());
        lemma_sum_at_total(rest, m.remove(k));
        assert forall|i: int| 0 <= i < rest.len() implies m[#[trigger] rest[i]] == m.remove(
            k,
        )[rest[i]] by {
            assert(rest[i] == keys[i]);
        }
        lemma_sum_at_agrees(rest, m, m.remove(k));
    }
}

/// A prefix of the keys sums up to no more than all of them.
pub proof fn lemma_sum_at_prefix<K>(keys: Seq<K>, m: Map<K, nat>, i: int)
    requires
        0 <= i <= keys.len(),
    ensures
        sum_at(keys.take(i), m) <= sum_at(keys, m),
        i < keys.len() ==> sum_at(keys.take(i + 1), m) == sum_at(keys.take(i), m) + m[keys[i]],
    decreases keys.len() - i,
{
    if i == keys.len() {
        assert(keys.take(i) =~= keys);
    } else {
        assert(keys.take(i + 1).drop_last() =~= keys.take(i));
        lemma_sum_at_prefix(keys, m, i + 1);
    }
}

/// A prefix of a sequence sums up to no more than the whole.
pub proof fn lemma_sum_prefix(s: Seq<nat>, i: int)
    requires
        0 <= i <= s.len(),
    ensures
        sum(s.take(i)) <= sum(s),
        i < s.len() ==> sum(s.take(i + 1)) == sum(s.take(i)) + s[i],
    decreases s.len() - i,
{
    if i == s.len() {
        assert(s.take(i) =~= s);
    } else {
        assert(s.take(i + 1).drop_last() =~= s.take(i));
        lemma_sum_prefix(s, i + 1);
    }
}

} // verus!
