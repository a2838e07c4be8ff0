//! A map whose entries stand in a vector and are found through a hash index. The
//! index takes encoded keys to places, so that the same index serves tables of
//! any key and value, and the values stay in plain sight.

use dashmap::DashMap;
use vstd::prelude::*;

verus! {

/// The concurrent hash map that serves as an index.
#[verifier::external_type_specification]
#[verifier::external_body]
#[verifier::reject_recursive_types(K)]
#[verifier::reject_recursive_types(V)]
#[verifier::reject_recursive_types(S)]
pub struct ExDashMap<K, V, S>(dashmap::DashMap<K, V, S>);

/// What an index holds: a position for each encoded key.
pub uninterp spec fn index_contents(index: DashMap<Vec<u8>, u64>) -> Map<Seq<u8>, u64>;

/// Calls `DashMap::new`. Trusted: a new map holds nothing.
#[verifier::external_body]
fn index_new() -> (index: DashMap<Vec<u8>, u64>)
    ensures
        index_contents(index).dom().is_empty(),
{
    DashMap::new()
}

/// Calls `DashMap::get` and copies the value out. Trusted: it gives what the
/// map holds under the key.
#[verifier::external_body]
fn index_get(index: &DashMap<Vec<u8>, u64>, key: &Vec<u8>) -> (found: Option<u64>)
    ensures
        found == (if index_contents(*index).contains_key(key@) {
            Some(index_contents(*index)[key@])
        } else {
            None
        }),
{
    index.get(key).map(|entry| *entry)
}

/// Calls `DashMap::insert`. Trusted: the key then has the new value, and no
/// other key is touched.
#[verifier::external_body]
fn index_insert(index: &mut DashMap<Vec<u8>, u64>, key: Vec<u8>, value: u64)
    ensures
        index_contents(*final(index)) == index_contents(*old(index)).insert(key@, value),
{
    index.insert(key, value);
}

/// Calls `DashMap::remove`. Trusted: the key is then absent, and no other key
/// is touched.
#[verifier::external_body]
fn index_remove(index: &mut DashMap<Vec<u8>, u64>, key: &Vec<u8>)
    ensures
        index_contents(*final(index)) == index_contents(*old(index)).remove(key@),
{
    index.remove(key);
}

/// A key that can be written as bytes, different keys as different bytes.
pub trait TableKey: View + Sized {
    spec fn encoded(key: Self::V) -> Seq<u8>;

    fn encode(&self) -> (bytes: Vec<u8>)
        ensures
            bytes@ == Self::encoded(self@),
    ;

    fn duplicate(&self) -> (copy: Self)
        ensures
            copy@ == self@,
    ;

    proof fn encoding_tells_apart(a: Self::V, b: Self::V)
        requires
            Self::encoded(a) == Self::encoded(b),
        ensures
            a == b,
    ;
}

/// A map from keys to values.
#[verifier::reject_recursive_types(K)]
pub struct Table<K: TableKey, V> {
    index: DashMap<Vec<u8>, u64>,
    entries: Vec<(K, V)>,
}

impl<K: TableKey, V> View for Table<K, V> {
    type V = Map<K::V, V>;

    closed spec fn view(&self) -> Map<K::V, V> {
        Map::new(
            |k: K::V| exists|i: int| self.holds_at(i, k),
            |k: K::V| self.entries@[choose|i: int| self.holds_at(i, k)].1,
        )
    }
}

impl<K: TableKey, V> Table<K, V> {
    spec fn holds_at(&self, i: int, k: K::V) -> bool {
        0 <= i < self.entries@.len() && self.entries@[i].0@ == k
    }

    /// Each entry has a key of its own, and the index gives its place.
    pub closed spec fn wf(&self) -> bool {
        &&& forall|i: int|
            #![trigger self.entries@[i]]
            0 <= i < self.entries@.len() ==> {
                &&& index_contents(self.index).contains_key(K::encoded(self.entries@[i].0@))
                &&& index_contents(self.index)[K::encoded(self.entries@[i].0@)] == i
            }
        &&& forall|bytes: Seq<u8>|
            #[trigger] index_contents(self.index).contains_key(bytes) ==> {
                let i = index_contents(self.index)[bytes] as int;
                0 <= i < self.entries@.len() && K::encoded(self.entries@[i].0@) == bytes
            }
    }

    /// The keys in the order in which the entries stand.
    pub closed spec fn keys(&self) -> Seq<K::V> {
        self.entries@.map_values(|e: (K, V)| e.0@)
    }

    proof fn lemma_at(&self, i: int)
        requires
            self.wf(),
            0 <= i < self.entries@.len(),
        ensures
            self@.contains_key(self.entries@[i].0@),
            self@[self.entries@[i].0@] == self.entries@[i].1,
    {
        let k = self.entries@[i].0@;
        assert(self.holds_at(i, k));
        let j = choose|j: int| self.holds_at(j, k);
        assert(self.holds_at(j, k));
        assert(self.entries@[j].0@ == self.entries@[i].0@);
        assert(i == j);
    }

    proof fn lemma_absent(&self, k: K::V)
        requires
            self.wf(),
            !index_contents(self.index).contains_key(K::encoded(k)),
        ensures
            !self@.contains_key(k),
    {
        if self@.contains_key(k) {
            let i = choose|i: int| self.holds_at(i, k);
            assert(self.holds_at(i, k));
            let e = self.entries@[i];
        }
    }

    /// The entries stand under different keys, and are all that the map holds.
    pub proof fn lemma_keys(&self)
        requires
            self.wf(),
        ensures
            self.keys().no_duplicates(),
            self.keys().to_set() == self@.dom(),
            self@.dom().finite(),
            self@.dom().len() == self.keys().len(),
            forall|i: int|
                #![trigger self.keys()[i]]
                0 <= i < self.keys().len() ==> self@.contains_key(self.keys()[i]),
            forall|k: K::V| self@.contains_key(k) ==> #[trigger] self.keys().contains(k),
    {
        assert forall|i: int, j: int|
            0 <= i < self.keys().len() && 0 <= j < self.keys().len() && i != j implies self.keys()[i]
            != self.keys()[j] by {
            let a = self.entries@[i];
            let b = self.entries@[j];
        }
        assert forall|i: int|
            #![trigger self.keys()[i]]
            0 <= i < self.keys().len() implies self@.contains_key(self.keys()[i]) by {
            self.lemma_at(i);
        }
        assert forall|k: K::V| self@.contains_key(k) implies #[trigger] self.keys().contains(k) by {
            let i = choose|i: int| self.holds_at(i, k);
            assert(self.holds_at(i, k));
            assert(self.keys()[i] == k);
        }
        assert(self.keys().to_set() =~= self@.dom());
        self.keys().unique_seq_to_set();
    }

    /// A table that holds nothing.
    pub fn new() -> (table: Self)
        ensures
            table.wf(),
            table@ == Map::<K::V, V>::empty(),
    {
        let table = Table { index: index_new(), entries: Vec::new() };
        proof {
            assert(table@ =~= Map::<K::V, V>::empty());
        }
        table
    }

    /// How many entries there are.
    pub fn len(&self) -> (n: usize)
        requires
            self.wf(),
        ensures
            n == self.keys().len(),
            n == self@.dom().len(),
            self@.dom().finite(),
    {
        proof {
            self.lemma_keys();
        }
        self.entries.len()
    }

    fn find(&self, key: &K) -> (place: Option<usize>)
        requires
            self.wf(),
        ensures
            match place {
                Some(i) => i < self.entries@.len() && self.entries@[i as int].0@ == key@
                    && self@.contains_key(key@) && self@[key@] == self.entries@[i as int].1,
                None => !self@.contains_key(key@) && !index_contents(self.index).contains_key(
                    K::encoded(key@),
                ),
            },
    {
        let bytes = key.encode();
        let n: usize = self.entries.len();
        match index_get(&self.index, &bytes) {
            Some(at) => {
                assert(at < n);
                let i: usize = at as usize;
                proof {
                    K::encoding_tells_apart(self.entries@[at as int].0@, key@);
                    self.lemma_at(at as int);
                }
                Some(i)
            },
            None => {
                proof {
                    self.lemma_absent(key@);
                }
                None
            },
        }
    }

    /// The value under a key.
    pub fn get(&self, key: &K) -> (value: Option<&V>)
        requires
            self.wf(),
        ensures
            match value {
                Some(v) => self@.contains_key(key@) && *v == self@[key@],
                None => !self@.contains_key(key@),
            },
    {
        match self.find(key) {
            Some(i) => Some(&self.entries[i].1),
            None => None,
        }
    }

    /// Whether there is a value under a key.
    pub fn contains_key(&self, key: &K) -> (present: bool)
        requires
            self.wf(),
        ensures
            present == self@.contains_key(key@),
    {
        self.find(key).is_some()
    }

    /// Puts a value under a key, in place of what was there.
    pub fn insert(&mut self, key: K, value: V)
        requires
            old(self).wf(),
        ensures
            final(self).wf(),
            final(self)@ == old(self)@.insert(key@, value),
            old(self)@.contains_key(key@) ==> final(self).keys() == old(self).keys(),
            !old(self)@.contains_key(key@) ==> final(self).keys() == old(self).keys().push(key@),
    {
        let ghost before = *self;
        match self.find(&key) {
            Some(i) => {
                self.put_at(i, value);
            },
            None => {
                let bytes = key.encode();
                let at: usize = self.entries.len();
                index_insert(&mut self.index, bytes, at as u64);
                self.entries.push((key, value));
                proof {
                    assert(self.entries@ == before.entries@.push((key, value)));
                    assert forall|i: int|
                        #![trigger self.entries@[i]]
                        0 <= i < self.entries@.len() implies {
                        &&& index_contents(self.index).contains_key(
                            K::encoded(self.entries@[i].0@),
                        )
                        &&& index_contents(self.index)[K::encoded(self.entries@[i].0@)] == i
                    } by {
                        if i < at {
                            let e = before.entries@[i];
                            assert(self.entries@[i] == e);
                        }
                    }
                    assert forall|bytes: Seq<u8>| #[trigger]
                        index_contents(self.index).contains_key(bytes) implies {
                        let i = index_contents(self.index)[bytes] as int;
                        0 <= i < self.entries@.len() && K::encoded(self.entries@[i].0@) == bytes
                    } by {
                        if bytes != K::encoded(key@) {
                            assert(index_contents(before.index).contains_key(bytes));
                        }
                    }
                    assert(self.wf());
                    Self::lemma_pushed(before, *self, key, value);
                    assert(self.keys() =~= before.keys().push(key@));
                }
            },
        }
    }

    proof fn lemma_pushed(before: Self, after: Self, key: K, value: V)
        requires
            before.wf(),
            after.wf(),
            after.entries@ == before.entries@.push((key, value)),
        ensures
            after@ == before@.insert(key@, value),
    {
        let n = before.entries@.len() as int;
        after.lemma_at(n);
        assert forall|k: K::V| after@.contains_key(k) == before@.insert(key@, value).contains_key(k) by {
            if after@.contains_key(k) {
                let i = choose|i: int| after.holds_at(i, k);
                assert(after.holds_at(i, k));
                if i < n {
                    assert(before.holds_at(i, k));
                }
            }
            if before@.contains_key(k) {
                let i = choose|i: int| before.holds_at(i, k);
                assert(before.holds_at(i, k));
                assert(after.holds_at(i, k));
            }
        }
        assert forall|k: K::V| after@.contains_key(k) implies #[trigger] after@[k] == before@.insert(
            key@,
            value,
        )[k] by {
            let i = choose|i: int| after.holds_at(i, k);
            assert(after.holds_at(i, k));
            after.lemma_at(i);
            if i < n {
                before.lemma_at(i);
                let e = after.entries@[i];
                let f = after.entries@[n];
            }
        }
        assert(after@ =~= before@.insert(key@, value));
    }

    fn put_at(&mut self, i: usize, value: V)
        requires
            old(self).wf(),
            i < old(self).entries@.len(),
        ensures
            final(self).wf(),
            final(self)@ == old(self)@.insert(old(self).entries@[i as int].0@, value),
            final(self).keys() == old(self).keys(),
    {
        let ghost before = *self;
        self.entries[i].1 = value;
        proof {
            assert(self.entries@.len() == before.entries@.len());
            assert forall|j: int| 0 <= j < self.entries@.len() implies #[trigger] self.entries@[j].0
                == before.entries@[j].0 by {}
            assert(self.wf()) by {
                assert forall|j: int|
                    #![trigger self.entries@[j]]
                    0 <= j < self.entries@.len() implies {
                    &&& index_contents(self.index).contains_key(K::encoded(self.entries@[j].0@))
                    &&& index_contents(self.index)[K::encoded(self.entries@[j].0@)] == j
                } by {
                    let e = before.entries@[j];
                }
                assert forall|bytes: Seq<u8>| #[trigger]
                    index_contents(self.index).contains_key(bytes) implies {
                    let j = index_contents(self.index)[bytes] as int;
                    0 <= j < self.entries@.len() && K::encoded(self.entries@[j].0@) == bytes
                } by {
                    assert(index_contents(before.index).contains_key(bytes));
                    let e = self.entries@[index_contents(self.index)[bytes] as int];
                }
            }
            let key = before.entries@[i as int].0@;
            assert forall|k: K::V| self@.contains_key(k) == before@.insert(key, value).contains_key(k) by {
                if self@.contains_key(k) {
                    let j = choose|j: int| self.holds_at(j, k);
                    assert(self.holds_at(j, k));
                    assert(before.holds_at(j, k));
                }
                if before@.contains_key(k) {
                    let j = choose|j: int| before.holds_at(j, k);
                    assert(before.holds_at(j, k));
                    assert(self.holds_at(j, k));
                }
                before.lemma_at(i as int);
            }
            assert forall|k: K::V| self@.contains_key(k) implies #[trigger] self@[k]
                == before@.insert(key, value)[k] by {
                let j = choose|j: int| self.holds_at(j, k);
                assert(self.holds_at(j, k));
                self.lemma_at(j);
                before.lemma_at(j);
                let e = before.entries@[i as int];
            }
            assert(self@ =~= before@.insert(key, value));
            assert(self.keys() =~= before.keys());
        }
    }

    /// The key of the entry at a place.
    pub fn key_at(&self, i: usize) -> (key: &K)
        requires
            i < self.keys().len(),
        ensures
            key@ == self.keys()[i as int],
    {
        &self.entries[i].0
    }

    /// The value of the entry at a place.
    pub fn value_at(&self, i: usize) -> (value: &V)
        requires
            self.wf(),
            i < self.keys().len(),
        ensures
            self@.contains_key(self.keys()[i as int]),
            *value == self@[self.keys()[i as int]],
    {
        proof {
            self.lemma_at(i as int);
        }
        &self.entries[i].1
    }

    /// Replaces the value of the entry at a place.
    pub fn set_value_at(&mut self, i: usize, value: V)
        requires
            old(self).wf(),
            i < old(self).keys().len(),
        ensures
            final(self).wf(),
            final(self)@ == old(self)@.insert(old(self).keys()[i as int], value),
            final(self).keys() == old(self).keys(),
    {
        self.put_at(i, value);
    }

    /// Takes the value under a key out.
    pub fn remove(&mut self, key: &K) -> (removed: Option<V>)
        requires
            old(self).wf(),
        ensures
            final(self).wf(),
            final(self)@ == old(self)@.remove(key@),
            match removed {
                Some(v) => old(self)@.contains_key(key@) && v == old(self)@[key@],
                None => !old(self)@.contains_key(key@),
            },
    {
        let ghost before = *self;
        match self.find(key) {
            Some(i) => {
                let last: usize = self.entries.len() - 1;
                let bytes = key.encode();
                index_remove(&mut self.index, &bytes);
                let entry = self.entries.swap_remove(i);
                if i < last {
                    let moved = self.entries[i].0.encode();
                    index_insert(&mut self.index, moved, i as u64);
                }
                proof {
                    if i == last {
                        assert(self.entries@ =~= before.entries@.drop_last());
                    } else {
                        assert(self.entries@ =~= before.entries@.update(
                            i as int,
                            before.entries@.last(),
                        ).drop_last());
                    }
                    Self::lemma_taken(before, *self, i as int);
                }
                Some(entry.1)
            },
            None => {
                proof {
                    assert(before@.remove(key@) =~= before@);
                }
                None
            },
        }
    }

    proof fn lemma_taken(before: Self, after: Self, i: int)
        requires
            before.wf(),
            0 <= i < before.entries@.len(),
            after.entries@ == (if i == before.entries@.len() - 1 {
                before.entries@.drop_last()
            } else {
                before.entries@.update(i, before.entries@.last()).drop_last()
            }),
            index_contents(after.index) == (if i == before.entries@.len() - 1 {
                index_contents(before.index).remove(K::encoded(before.entries@[i].0@))
            } else {
                index_contents(before.index).remove(K::encoded(before.entries@[i].0@)).insert(
                    K::encoded(before.entries@.last().0@),
                    i as u64,
                )
            }),
            before.entries@.len() <= u64::MAX,
        ensures
            after.wf(),
            after@ == before@.remove(before.entries@[i].0@),
    {
        let last = before.entries@.len() - 1;
        let key = before.entries@[i].0@;
        let end = before.entries@[last];
        assert forall|j: int|
            #![trigger after.entries@[j]]
            0 <= j < after.entries@.len() implies {
            &&& index_contents(after.index).contains_key(K::encoded(after.entries@[j].0@))
            &&& index_contents(after.index)[K::encoded(after.entries@[j].0@)] == j
        } by {
            let e = before.entries@[j];
            let f = before.entries@[i];
        }
        assert forall|bytes: Seq<u8>| #[trigger]
            index_contents(after.index).contains_key(bytes) implies {
            let j = index_contents(after.index)[bytes] as int;
            0 <= j < after.entries@.len() && K::encoded(after.entries@[j].0@) == bytes
        } by {
            if i == last || bytes != K::encoded(end.0@) {
                assert(index_contents(before.index).contains_key(bytes));
                let e = before.entries@[index_contents(before.index)[bytes] as int];
            }
        }
        assert(after.wf());
        assert forall|k: K::V| after@.contains_key(k) == before@.remove(key).contains_key(k) by {
            if after@.contains_key(k) {
                let j = choose|j: int| after.holds_at(j, k);
                assert(after.holds_at(j, k));
                let from = if j == i {
                    last
                } else {
                    j
                };
                assert(before.holds_at(from, k));
                let e = before.entries@[from];
                let f = before.entries@[i];
            }
            if before@.remove(key).contains_key(k) {
                let j = choose|j: int| before.holds_at(j, k);
                assert(before.holds_at(j, k));
                let to = if j == last {
                    i
                } else {
                    j
                };
                assert(after.holds_at(to, k));
            }
        }
        assert forall|k: K::V| after@.contains_key(k) implies #[trigger] after@[k] == before@.remove(
            key,
        )[k] by {
            let j = choose|j: int| after.holds_at(j, k);
            assert(after.holds_at(j, k));
            after.lemma_at(j);
            let from = if j == i {
                last
            } else {
                j
            };
            before.lemma_at(from);
        }
        assert(after@ =~= before@.remove(key));
    }

    /// Takes every entry out.
    pub fn clear(&mut self)
        ensures
            final(self).wf(),
            final(self)@ == Map::<K::V, V>::empty(),
    {
        self.index = index_new();
        self.entries = Vec::new();
        proof {
            assert(self@ =~= Map::<K::V, V>::empty());
        }
    }
}

impl TableKey for [u8; 32] {
    open spec fn encoded(key: Seq<u8>) -> Seq<u8> {
        key
    }

    fn encode(&self) -> (bytes: Vec<u8>) {
        let mut bytes: Vec<u8> = Vec::new();
        bytes.extend_from_slice(self);
        assert(bytes@ =~= self@);
        bytes
    }

    fn duplicate(&self) -> (copy: Self) {
        *self
    }

    proof fn encoding_tells_apart(a: Seq<u8>, b: Seq<u8>) {
    }
}

impl TableKey for u64 {
    open spec fn encoded(key: u64) -> Seq<u8> {
        vstd::bytes::spec_u64_to_le_bytes(key)
    }

    fn encode(&self) -> (bytes: Vec<u8>) {
        vstd::bytes::u64_to_le_bytes(*self)
    }

    fn duplicate(&self) -> (copy: Self) {
        *self
    }

    proof fn encoding_tells_apart(a: u64, b: u64) {
        vstd::bytes::lemma_auto_spec_u64_to_from_le_bytes();
    }
}

impl TableKey for ([u8; 32], u64) {
    open spec fn encoded(key: (Seq<u8>, u64)) -> Seq<u8> {
        vstd::bytes::spec_u64_to_le_bytes(key.1) + key.0
    }

    fn encode(&self) -> (bytes: Vec<u8>) {
        let mut bytes: Vec<u8> = vstd::bytes::u64_to_le_bytes(self.1);
        bytes.extend_from_slice(&self.0);
        assert(bytes@ =~= Self::encoded(self@));
        bytes
    }

    fn duplicate(&self) -> (copy: Self) {
        *self
    }

    proof fn encoding_tells_apart(a: (Seq<u8>, u64), b: (Seq<u8>, u64)) {
        vstd::bytes::lemma_auto_spec_u64_to_from_le_bytes();
        let x = Self::encoded(a);
        let y = Self::encoded(b);
        assert(x.subrange(0, 8) =~= vstd::bytes::spec_u64_to_le_bytes(a.1));
        assert(y.subrange(0, 8) =~= vstd::bytes::spec_u64_to_le_bytes(b.1));
        assert(x.skip(8) =~= a.0);
        assert(y.skip(8) =~= b.0);
    }
}

impl TableKey for String {
    open spec fn encoded(key: Seq<char>) -> Seq<u8> {
        vstd::utf8::encode_utf8(key)
    }

    fn encode(&self) -> (bytes: Vec<u8>) {
        let mut bytes: Vec<u8> = Vec::new();
        bytes.extend_from_slice(self.as_str().as_bytes());
        assert(bytes@ =~= Self::encoded(self@));
        bytes
    }

    fn duplicate(&self) -> (copy: Self) {
        self.clone()
    }

    proof fn encoding_tells_apart(a: Seq<char>, b: Seq<char>) {
        vstd::utf8::encode_utf8_decode_utf8(a);
        vstd::utf8::encode_utf8_decode_utf8(b);
    }
}

} // verus!
