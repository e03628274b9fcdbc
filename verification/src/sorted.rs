//! Maps that keep their entries in the order of their keys.

use crate::bytes::utf8;
use vstd::prelude::*;

verus! {

/// Keys with a strict total order.
pub trait OrderedKey: View + Sized {
    /// Whether `a` stands before `b`.
    spec fn before(a: Self::V, b: Self::V) -> bool;

    /// The order is strict and total.
    proof fn order_laws(a: Self::V, b: Self::V, c: Self::V)
        ensures
            !Self::before(a, a),
            Self::before(a, b) && Self::before(b, c) ==> Self::before(a, c),
            a == b || Self::before(a, b) || Self::before(b, a),
    ;

    fn is_before(&self, other: &Self) -> (answer: bool)
        ensures
            answer == Self::before(self@, other@),
    ;
}

/// Whether byte string `a` stands before `b`, byte by byte; a prefix stands first.
pub open spec fn bytes_before(a: Seq<u8>, b: Seq<u8>) -> bool
    decreases a.len(),
{
    if b.len() == 0 {
        false
    } else if a.len() == 0 {
        true
    } else if a[0] == b[0] {
        bytes_before(a.drop_first(), b.drop_first())
    } else {
        a[0] < b[0]
    }
}

pub proof fn lemma_bytes_order(a: Seq<u8>, b: Seq<u8>, c: Seq<u8>)
    ensures
        !bytes_before(a, a),
        bytes_before(a, b) && bytes_before(b, c) ==> bytes_before(a, c),
        a == b || bytes_before(a, b) || bytes_before(b, a),
    decreases a.len(),
{
    if a.len() > 0 {
        let a1 = a.drop_first();
        let b1 = if b.len() > 0 {
            b.drop_first()
        } else {
            b
        };
        let c1 = if c.len() > 0 {
            c.drop_first()
        } else {
            c
        };
        lemma_bytes_order(a1, b1, c1);
        if b.len() > 0 && a[0] == b[0] && a1 == b1 {
            assert(a =~= seq![a[0]] + a1);
            assert(b =~= seq![b[0]] + b1);
        }
    } else if b.len() == 0 {
        assert(a =~= b);
    }
}

/// Whether byte string `a` stands before `b`.
pub fn is_bytes_before(a: &[u8], b: &[u8]) -> (answer: bool)
    ensures
        answer == bytes_before(a@, b@),
{
    let mut i: usize = 0;
    assert(a@.skip(0) =~= a@);
    assert(b@.skip(0) =~= b@);
    while i < a.len() && i < b.len()
        invariant
            i <= a@.len(),
            i <= b@.len(),
            bytes_before(a@, b@) == bytes_before(a@.skip(i as int), b@.skip(i as int)),
        decreases a@.len() - i,
    {
        if a[i] != b[i] {
            return a[i] < b[i];
        }
        assert(a@.skip(i as int).drop_first() =~= a@.skip(i + 1));
        assert(b@.skip(i as int).drop_first() =~= b@.skip(i + 1));
        i += 1;
    }
    i < b.len()
}

/// Whether text `a` stands before `b`: the order of their UTF-8 bytes.
pub open spec fn text_before(a: Seq<char>, b: Seq<char>) -> bool {
    bytes_before(utf8(a), utf8(b))
}

impl OrderedKey for String {
    open spec fn before(a: Seq<char>, b: Seq<char>) -> bool {
        text_before(a, b)
    }

    proof fn order_laws(a: Seq<char>, b: Seq<char>, c: Seq<char>) {
        lemma_bytes_order(utf8(a), utf8(b), utf8(c));
        vstd::utf8::encode_utf8_decode_utf8(a);
        vstd::utf8::encode_utf8_decode_utf8(b);
    }

    fn is_before(&self, other: &String) -> (answer: bool) {
        is_bytes_before(self.as_str().as_bytes(), other.as_str().as_bytes())
    }
}

impl OrderedKey for u64 {
    open spec fn before(a: u64, b: u64) -> bool {
        a < b
    }

    proof fn order_laws(a: u64, b: u64, c: u64) {
    }

    fn is_before(&self, other: &u64) -> (answer: bool) {
        *self < *other
    }
}

impl<A: OrderedKey, B: OrderedKey> OrderedKey for (A, B) {
    open spec fn before(a: (A::V, B::V), b: (A::V, B::V)) -> bool {
        A::before(a.0, b.0) || (a.0 == b.0 && B::before(a.1, b.1))
    }

    proof fn order_laws(a: (A::V, B::V), b: (A::V, B::V), c: (A::V, B::V)) {
        A::order_laws(a.0, b.0, c.0);
        A::order_laws(a.0, b.0, a.0);
        B::order_laws(a.1, b.1, c.1);
    }

    fn is_before(&self, other: &(A, B)) -> (answer: bool) {
        if self.0.is_before(&other.0) {
            return true;
        }
        proof {
            A::order_laws(self.0@, other.0@, self.0@);
        }
        if other.0.is_before(&self.0) {
            return false;
        }
        self.1.is_before(&other.1)
    }
}

/// The position of a key among entries.
spec fn position<K: OrderedKey, V: View>(entries: Seq<(K, V)>, key: K::V) -> int {
    choose|i: int| 0 <= i < entries.len() && (#[trigger] entries[i]).0@ == key
}

/// The map that a list of entries stands for.
spec fn map_of<K: OrderedKey, V: View>(entries: Seq<(K, V)>) -> Map<K::V, V::V> {
    Map::new(
        |key: K::V| exists|i: int| 0 <= i < entries.len() && (#[trigger] entries[i]).0@ == key,
        |key: K::V| entries[position(entries, key)].1@,
    )
}

/// Whether entries stand in the order of their keys, no key twice.
spec fn is_ascending<K: OrderedKey, V: View>(entries: Seq<(K, V)>) -> bool {
    forall|i: int, j: int| 0 <= i < j < entries.len() ==> K::before(entries[i].0@, entries[j].0@)
}

proof fn lemma_entry<K: OrderedKey, V: View>(entries: Seq<(K, V)>, i: int)
    requires
        is_ascending(entries),
        0 <= i < entries.len(),
    ensures
        map_of(entries).contains_key(entries[i].0@),
        map_of(entries)[entries[i].0@] == entries[i].1@,
{
    let key = entries[i].0@;
    let j = position(entries, key);
    assert(entries[i].0@ == key);
    assert(0 <= j < entries.len() && entries[j].0@ == key);
    K::order_laws(key, key, key);
}

/// Whether a list of keys is ascending and holds exactly the keys of a map.
pub open spec fn lists_keys<K: OrderedKey, W>(keys: Seq<K::V>, map: Map<K::V, W>) -> bool {
    &&& forall|i: int, j: int| 0 <= i < j < keys.len() ==> K::before(keys[i], keys[j])
    &&& forall|i: int| 0 <= i < keys.len() ==> map.contains_key(#[trigger] keys[i])
    &&& forall|key: K::V| #[trigger] map.contains_key(key) ==> keys.contains(key)
}

/// A map whose entries stand in the order of their keys.
#[derive(Debug, Clone, PartialEq, Eq)]
pub struct SortedMap<K: OrderedKey, V: View> {
    entries: Vec<(K, V)>,
}

impl<K: OrderedKey, V: View> View for SortedMap<K, V> {
    type V = Map<K::V, V::V>;

    closed spec fn view(&self) -> Map<K::V, V::V> {
        map_of(self.entries@)
    }
}

impl<K: OrderedKey, V: View> SortedMap<K, V> {
    /// Whether the entries stand in order, as every map that was built here keeps them.
    pub closed spec fn wf(self) -> bool {
        is_ascending(self.entries@)
    }

    /// The keys, in order.
    pub closed spec fn keys(self) -> Seq<K::V> {
        self.entries@.map_values(|entry: (K, V)| entry.0@)
    }

    /// The empty map.
    pub fn new() -> (map: SortedMap<K, V>)
        ensures
            map.wf(),
            map@ == Map::<K::V, V::V>::empty(),
    {
        let map = SortedMap { entries: Vec::new() };
        assert(map@ =~= Map::<K::V, V::V>::empty());
        map
    }

    /// How many entries there are.
    pub fn len(&self) -> (len: usize)
        requires
            self.wf(),
        ensures
            len == self.keys().len(),
            lists_keys::<K, V::V>(self.keys(), self@),
    {
        proof {
            let keys = self.keys();
            assert forall|i: int| 0 <= i < keys.len() implies self@.contains_key(
                #[trigger] keys[i],
            ) by {
                lemma_entry(self.entries@, i);
            }
            assert forall|key: K::V| #[trigger] self@.contains_key(key) implies keys.contains(
                key,
            ) by {
                let i = choose|i: int|
                    0 <= i < self.entries@.len() && (#[trigger] self.entries@[i]).0@ == key;
                assert(keys[i] == key);
            }
        }
        self.entries.len()
    }

    /// The key at a position.
    pub fn key_at(&self, i: usize) -> (key: &K)
        requires
            self.wf(),
            i < self.keys().len(),
        ensures
            key@ == self.keys()[i as int],
            self@.contains_key(key@),
    {
        proof {
            lemma_entry(self.entries@, i as int);
        }
        &self.entries[i].0
    }

    /// The value at a position.
    pub fn value_at(&self, i: usize) -> (value: &V)
        requires
            self.wf(),
            i < self.keys().len(),
        ensures
            self@.contains_key(self.keys()[i as int]),
            value@ == self@[self.keys()[i as int]],
    {
        proof {
            lemma_entry(self.entries@, i as int);
        }
        &self.entries[i].1
    }

    fn lower_bound(&self, key: &K) -> (found: (usize, bool))
        requires
            self.wf(),
        ensures
            found.0 <= self.entries@.len(),
            forall|i: int| 0 <= i < found.0 ==> K::before(self.entries@[i].0@, key@),
            forall|i: int|
                found.0 <= i < self.entries@.len() ==> !K::before(self.entries@[i].0@, key@),
            found.1 == (found.0 < self.entries@.len() && self.entries@[found.0 as int].0@ == key@),
            found.1 == self@.contains_key(key@),
    {
        let mut i: usize = 0;
        while i < self.entries.len() && self.entries[i].0.is_before(key)
            invariant
                i <= self.entries@.len(),
                forall|j: int| 0 <= j < i ==> K::before(self.entries@[j].0@, key@),
            decreases self.entries@.len() - i,
        {
            i += 1;
        }
        proof {
            assert forall|j: int| i <= j < self.entries@.len() implies !K::before(
                self.entries@[j].0@,
                key@,
            ) by {
                if j > i {
                    assert(K::before(self.entries@[i as int].0@, self.entries@[j].0@));
                    K::order_laws(self.entries@[i as int].0@, self.entries@[j].0@, key@);
                }
            }
            K::order_laws(key@, key@, key@);
            if i < self.entries@.len() {
                K::order_laws(key@, self.entries@[i as int].0@, key@);
            }
            if self@.contains_key(key@) {
                let j = choose|j: int|
                    0 <= j < self.entries@.len() && (#[trigger] self.entries@[j]).0@ == key@;
                if j > i {
                    assert(K::before(self.entries@[i as int].0@, self.entries@[j].0@));
                }
            }
        }
        let found = i < self.entries.len() && !key.is_before(&self.entries[i].0);
        (i, found)
    }

    /// Whether the map has a value for a key.
    pub fn contains_key(&self, key: &K) -> (found: bool)
        requires
            self.wf(),
        ensures
            found == self@.contains_key(key@),
    {
        self.lower_bound(key).1
    }

    /// The value for a key.
    pub fn get(&self, key: &K) -> (value: Option<&V>)
        requires
            self.wf(),
        ensures
            match value {
                Some(value) => self@.contains_key(key@) && value@ == self@[key@],
                None => !self@.contains_key(key@),
            },
    {
        let (i, found) = self.lower_bound(key);
        if found {
            proof {
                lemma_entry(self.entries@, i as int);
            }
            Some(&self.entries[i].1)
        } else {
            None
        }
    }

    /// Sets the value for a key.
    pub fn insert(&mut self, key: K, value: V)
        requires
            old(self).wf(),
        ensures
            final(self).wf(),
            final(self)@ == old(self)@.insert(key@, value@),
    {
        let (i, found) = self.lower_bound(&key);
        let ghost before = self.entries@;
        let ghost entry = (key, value);
        if found {
            proof {
                let after = before.update(i as int, entry);
                assert forall|a: int, b: int| 0 <= a < b < after.len() implies K::before(
                    after[a].0@,
                    after[b].0@,
                ) by {
                    assert(K::before(before[a].0@, before[b].0@));
                }
                lemma_updated(before, i as int, entry);
            }
            self.entries.set(i, (key, value));
        } else {
            proof {
                lemma_inserted(before, i as int, entry);
            }
            self.entries.insert(i, (key, value));
        }
    }

    /// Takes a key out of the map.
    pub fn remove(&mut self, key: &K)
        requires
            old(self).wf(),
        ensures
            final(self).wf(),
            final(self)@ == old(self)@.remove(key@),
    {
        let (i, found) = self.lower_bound(key);
        if found {
            proof {
                lemma_removed(self.entries@, i as int);
            }
            self.entries.remove(i);
        } else {
            assert(self@ =~= self@.remove(key@));
        }
    }
}

proof fn lemma_updated<K: OrderedKey, V: View>(entries: Seq<(K, V)>, i: int, entry: (K, V))
    requires
        is_ascending(entries),
        0 <= i < entries.len(),
        entries[i].0@ == entry.0@,
        is_ascending(entries.update(i, entry)),
    ensures
        map_of(entries.update(i, entry)) == map_of(entries).insert(entry.0@, entry.1@),
{
    let after = entries.update(i, entry);
    assert forall|key: K::V| #[trigger] map_of(after).contains_key(key) == map_of(entries).insert(
        entry.0@,
        entry.1@,
    ).contains_key(key) by {
        if map_of(after).contains_key(key) {
            let j = choose|j: int| 0 <= j < after.len() && (#[trigger] after[j]).0@ == key;
            assert(entries[j].0@ == key);
        }
        if map_of(entries).contains_key(key) {
            let j = choose|j: int| 0 <= j < entries.len() && (#[trigger] entries[j]).0@ == key;
            assert(after[j].0@ == key);
        }
        assert(after[i].0@ == entry.0@);
    }
    assert forall|key: K::V| #[trigger] map_of(after).contains_key(key) implies map_of(after)[key]
        == map_of(entries).insert(entry.0@, entry.1@)[key] by {
        let j = choose|j: int| 0 <= j < after.len() && (#[trigger] after[j]).0@ == key;
        lemma_entry(after, j);
        lemma_entry(entries, j);
        lemma_entry(after, i);
        K::order_laws(key, key, key);
        if j != i {
            assert(entries[j].0@ != entries[i].0@);
        }
    }
    assert(map_of(after) =~= map_of(entries).insert(entry.0@, entry.1@));
}

proof fn lemma_inserted<K: OrderedKey, V: View>(entries: Seq<(K, V)>, i: int, entry: (K, V))
    requires
        is_ascending(entries),
        0 <= i <= entries.len(),
        !map_of(entries).contains_key(entry.0@),
        forall|j: int| 0 <= j < i ==> K::before(entries[j].0@, entry.0@),
        forall|j: int| i <= j < entries.len() ==> !K::before(entries[j].0@, entry.0@),
    ensures
        is_ascending(entries.insert(i, entry)),
        map_of(entries.insert(i, entry)) == map_of(entries).insert(entry.0@, entry.1@),
{
    let after = entries.insert(i, entry);
    assert forall|a: int, b: int| 0 <= a < b < after.len() implies K::before(
        after[a].0@,
        after[b].0@,
    ) by {
        if a == i {
            assert(after[b] == entries[b - 1]);
            assert(map_of(entries).contains_key(entries[b - 1].0@));
            K::order_laws(entry.0@, entries[b - 1].0@, entry.0@);
        } else if b == i {
            assert(after[a] == entries[a]);
        } else {
            let a0 = if a < i {
                a
            } else {
                a - 1
            };
            let b0 = if b < i {
                b
            } else {
                b - 1
            };
            assert(after[a] == entries[a0] && after[b] == entries[b0]);
        }
    }
    assert forall|key: K::V| #[trigger] map_of(after).contains_key(key) == map_of(entries).insert(
        entry.0@,
        entry.1@,
    ).contains_key(key) by {
        if map_of(after).contains_key(key) {
            let j = choose|j: int| 0 <= j < after.len() && (#[trigger] after[j]).0@ == key;
            if j < i {
                assert(entries[j].0@ == key);
            } else if j > i {
                assert(entries[j - 1].0@ == key);
            }
        }
        if map_of(entries).contains_key(key) {
            let j = choose|j: int| 0 <= j < entries.len() && (#[trigger] entries[j]).0@ == key;
            if j < i {
                assert(after[j].0@ == key);
            } else {
                assert(after[j + 1].0@ == key);
            }
        }
        assert(after[i].0@ == entry.0@);
    }
    assert forall|key: K::V| #[trigger] map_of(after).contains_key(key) implies map_of(after)[key]
        == map_of(entries).insert(entry.0@, entry.1@)[key] by {
        let j = choose|j: int| 0 <= j < after.len() && (#[trigger] after[j]).0@ == key;
        lemma_entry(after, j);
        lemma_entry(after, i);
        if j < i {
            assert(after[j] == entries[j]);
            lemma_entry(entries, j);
        } else if j > i {
            assert(after[j] == entries[j - 1]);
            lemma_entry(entries, j - 1);
        }
    }
    assert(map_of(after) =~= map_of(entries).insert(entry.0@, entry.1@));
}

proof fn lemma_removed<K: OrderedKey, V: View>(entries: Seq<(K, V)>, i: int)
    requires
        is_ascending(entries),
        0 <= i < entries.len(),
    ensures
        is_ascending(entries.remove(i)),
        map_of(entries.remove(i)) == map_of(entries).remove(entries[i].0@),
{
    let after = entries.remove(i);
    let gone = entries[i].0@;
    assert forall|a: int, b: int| 0 <= a < b < after.len() implies K::before(
        after[a].0@,
        after[b].0@,
    ) by {
        let a0 = if a < i {
            a
        } else {
            a + 1
        };
        let b0 = if b < i {
            b
        } else {
            b + 1
        };
        assert(after[a] == entries[a0] && after[b] == entries[b0]);
    }
    assert forall|key: K::V| #[trigger] map_of(after).contains_key(key) == map_of(entries).remove(
        gone,
    ).contains_key(key) by {
        if map_of(after).contains_key(key) {
            let j = choose|j: int| 0 <= j < after.len() && (#[trigger] after[j]).0@ == key;
            let j0 = if j < i {
                j
            } else {
                j + 1
            };
            assert(entries[j0].0@ == key);
            K::order_laws(key, gone, key);
            if j0 < i {
                assert(K::before(entries[j0].0@, entries[i].0@));
            } else {
                assert(K::before(entries[i].0@, entries[j0].0@));
            }
        }
        if map_of(entries).contains_key(key) && key != gone {
            let j = choose|j: int| 0 <= j < entries.len() && (#[trigger] entries[j]).0@ == key;
            if j < i {
                assert(after[j].0@ == key);
            } else {
                assert(after[j - 1].0@ == key);
            }
        }
    }
    assert forall|key: K::V| #[trigger] map_of(after).contains_key(key) implies map_of(after)[key]
        == map_of(entries).remove(gone)[key] by {
        let j = choose|j: int| 0 <= j < after.len() && (#[trigger] after[j]).0@ == key;
        let j0 = if j < i {
            j
        } else {
            j + 1
        };
        assert(after[j] == entries[j0]);
        lemma_entry(after, j);
        lemma_entry(entries, j0);
    }
    assert(map_of(after) =~= map_of(entries).remove(gone));
}

/// Values that can be copied in full.
pub trait Record: View + Sized {
    fn duplicate(&self) -> (copy: Self)
        ensures
            copy@ == self@,
    ;
}

/// The contents of an optional value.
pub open spec fn option_view<T: View>(value: Option<T>) -> Option<T::V> {
    match value {
        Some(value) => Some(value@),
        None => None,
    }
}

/// The contents of a list of values.
pub open spec fn views<T: View>(values: Seq<T>) -> Seq<T::V> {
    values.map_values(|value: T| value@)
}

/// Whether `rows` are the values of `table` that have a rank, in the order of their ranks.
pub open spec fn is_selection<K, W, S: OrderedKey>(
    rows: Seq<W>,
    table: Map<K, W>,
    rank: spec_fn(W) -> Option<S::V>,
) -> bool {
    &&& forall|i: int|
        0 <= i < rows.len() ==> rank(#[trigger] rows[i]) is Some && table.contains_value(rows[i])
    &&& forall|i: int, j: int|
        0 <= i < j < rows.len() ==> S::before(rank(rows[i])->0, rank(rows[j])->0)
    &&& forall|k: K|
        table.contains_key(k) && rank(#[trigger] table[k]) is Some ==> rows.contains(table[k])
}

/// Of a table with one value that has a rank, that one is selected.
pub proof fn lemma_single_selection<K, W, S: OrderedKey>(
    rows: Seq<W>,
    table: Map<K, W>,
    rank: spec_fn(W) -> Option<S::V>,
    key: K,
)
    requires
        is_selection::<K, W, S>(rows, table, rank),
        table.contains_key(key),
        rank(table[key]) is Some,
        forall|k: K| #[trigger] table.contains_key(k) && rank(table[k]) is Some ==> k == key,
    ensures
        rows == seq![table[key]],
{
    assert(rows.contains(table[key]));
    assert forall|i: int| 0 <= i < rows.len() implies rows[i] == table[key] by {
        assert(table.contains_value(rows[i]));
        let k = choose|k: K| #[trigger] table.contains_key(k) && table[k] == rows[i];
        assert(k == key);
    }
    if rows.len() > 1 {
        let place = rank(table[key])->0;
        S::order_laws(place, place, place);
        assert(rows[0] == rows[1]);
    }
    assert(rows =~= seq![table[key]]);
}

/// Of a table with two values that have a rank, those two are selected, in one order or the
/// other.
pub proof fn lemma_pair_selection<K, W, S: OrderedKey>(
    rows: Seq<W>,
    table: Map<K, W>,
    rank: spec_fn(W) -> Option<S::V>,
    a: K,
    b: K,
)
    requires
        is_selection::<K, W, S>(rows, table, rank),
        table.contains_key(a),
        table.contains_key(b),
        rank(table[a]) is Some,
        rank(table[b]) is Some,
        table[a] != table[b],
        forall|k: K| #[trigger]
            table.contains_key(k) && rank(table[k]) is Some ==> k == a || k == b,
    ensures
        rows == seq![table[a], table[b]] || rows == seq![table[b], table[a]],
{
    assert(rows.contains(table[a]));
    assert(rows.contains(table[b]));
    assert forall|i: int| 0 <= i < rows.len() implies rows[i] == table[a] || rows[i]
        == table[b] by {
        assert(table.contains_value(rows[i]));
        let k = choose|k: K| #[trigger] table.contains_key(k) && table[k] == rows[i];
        assert(k == a || k == b);
    }
    assert forall|i: int, j: int| 0 <= i < j < rows.len() implies rows[i] != rows[j] by {
        let place = rank(rows[i])->0;
        S::order_laws(place, place, place);
        assert(S::before(rank(rows[i])->0, rank(rows[j])->0));
    }
    if rows.len() > 2 {
        assert(rows[0] != rows[1] && rows[0] != rows[2] && rows[1] != rows[2]);
    }
    assert(rows.len() == 2) by {
        let i = choose|i: int| 0 <= i < rows.len() && rows[i] == table[a];
        let j = choose|j: int| 0 <= j < rows.len() && rows[j] == table[b];
        assert(i != j);
    }
    if rows[0] == table[a] {
        assert(rows =~= seq![table[a], table[b]]);
    } else {
        assert(rows =~= seq![table[b], table[a]]);
    }
}

/// Of a table with no value that has a rank, nothing is selected.
pub proof fn lemma_empty_selection<K, W, S: OrderedKey>(
    rows: Seq<W>,
    table: Map<K, W>,
    rank: spec_fn(W) -> Option<S::V>,
)
    requires
        is_selection::<K, W, S>(rows, table, rank),
        forall|k: K| #[trigger] table.contains_key(k) ==> rank(table[k]) is None,
    ensures
        rows.len() == 0,
{
    if rows.len() > 0 {
        assert(table.contains_value(rows[0]));
        let k = choose|k: K| #[trigger] table.contains_key(k) && table[k] == rows[0];
    }
}

/// Copies the values that have a rank, in the order of their ranks.
pub fn select<K, V, S, F>(
    table: &SortedMap<K, V>,
    rank: F,
    Ghost(spec_rank): Ghost<spec_fn(V::V) -> Option<S::V>>,
) -> (rows: Vec<V>) where K: OrderedKey, V: Record, S: OrderedKey, F: Fn(&V) -> Option<S>
    requires
        table.wf(),
        forall|value: &V| call_requires(rank, (value,)),
        forall|value: &V, key: Option<S>|
            call_ensures(rank, (value,), key) ==> option_view(key) == spec_rank(value@),
        forall|a: K::V, b: K::V|
            table@.contains_key(a) && table@.contains_key(b) && spec_rank(#[trigger] table@[a])
                is Some && spec_rank(table@[a]) == spec_rank(#[trigger] table@[b]) ==> table@[a]
                == table@[b],
    ensures
        is_selection::<K::V, V::V, S>(views(rows@), table@, spec_rank),
{
    let mut ranked: SortedMap<S, V> = SortedMap::new();
    let count: usize = table.len();
    let ghost keys = table.keys();
    let mut i: usize = 0;
    while i < count
        invariant
            table.wf(),
            ranked.wf(),
            i <= count,
            keys == table.keys(),
            count == keys.len(),
            lists_keys::<K, V::V>(keys, table@),
            forall|value: &V| call_requires(rank, (value,)),
            forall|value: &V, key: Option<S>|
                call_ensures(rank, (value,), key) ==> option_view(key) == spec_rank(value@),
            forall|a: K::V, b: K::V|
                table@.contains_key(a) && table@.contains_key(b) && spec_rank(
                    #[trigger] table@[a],
                ) is Some && spec_rank(table@[a]) == spec_rank(#[trigger] table@[b])
                    ==> table@[a] == table@[b],
            forall|key: S::V| #[trigger]
                ranked@.contains_key(key) ==> spec_rank(ranked@[key]) == Some(key)
                    && table@.contains_value(ranked@[key]),
            forall|j: int|
                0 <= j < i && spec_rank(table@[#[trigger] keys[j]]) is Some
                    ==> ranked@.contains_key(spec_rank(table@[keys[j]])->0)
                    && ranked@[spec_rank(table@[keys[j]])->0] == table@[keys[j]],
        decreases count - i,
    {
        let value = table.value_at(i);
        assert(table@.contains_value(value@));
        match rank(value) {
            Some(key) => {
                let ghost before = ranked@;
                let copy = value.duplicate();
                ranked.insert(key, copy);
                assert forall|j: int| 0 <= j < i + 1 && spec_rank(
                    table@[#[trigger] keys[j]],
                ) is Some implies ranked@.contains_key(spec_rank(table@[keys[j]])->0)
                    && ranked@[spec_rank(table@[keys[j]])->0] == table@[keys[j]] by {
                    assert(table@.contains_key(keys[j]));
                    assert(table@.contains_key(keys[i as int]));
                    assert(table@[keys[i as int]] == value@);
                }
            },
            None => {},
        }
        i += 1;
    }
    let mut rows: Vec<V> = Vec::new();
    let total: usize = ranked.len();
    let ghost ranks = ranked.keys();
    let mut k: usize = 0;
    while k < total
        invariant
            ranked.wf(),
            k <= total,
            ranks == ranked.keys(),
            total == ranks.len(),
            rows@.len() == k,
            lists_keys::<S, V::V>(ranks, ranked@),
            forall|j: int| 0 <= j < k ==> (#[trigger] rows@[j])@ == ranked@[ranks[j]],
        decreases total - k,
    {
        rows.push(ranked.value_at(k).duplicate());
        k += 1;
    }
    proof {
        let shown = views(rows@);
        assert forall|j: int| 0 <= j < shown.len() implies spec_rank(#[trigger] shown[j]) == Some(
            ranks[j],
        ) && table@.contains_value(shown[j]) by {
            assert(ranked@.contains_key(ranks[j]));
            assert(rows@[j]@ == ranked@[ranks[j]]);
        }
        assert forall|key: K::V|
            table@.contains_key(key) && spec_rank(#[trigger] table@[key]) is Some implies shown.contains(
            table@[key],
        ) by {
            assert(keys.contains(key));
            let j = choose|j: int| 0 <= j < keys.len() && keys[j] == key;
            let r = spec_rank(table@[keys[j]])->0;
            assert(ranked@.contains_key(r));
            assert(ranks.contains(r));
            let n = choose|n: int| 0 <= n < ranks.len() && ranks[n] == r;
            assert(shown[n] == table@[key]);
        }
    }
    rows
}

/// The keys of a map whose values have a property.
pub open spec fn keys_where<K, W>(map: Map<K, W>, wanted: spec_fn(W) -> bool) -> Set<K> {
    map.dom().filter(|key: K| wanted(map[key]))
}

/// How many values have a property.
pub fn count_where<K, V, F>(
    table: &SortedMap<K, V>,
    wanted: F,
    Ghost(spec_wanted): Ghost<spec_fn(V::V) -> bool>,
) -> (count: usize) where K: OrderedKey, V: View, F: Fn(&V) -> bool
    requires
        table.wf(),
        forall|value: &V| call_requires(wanted, (value,)),
        forall|value: &V, answer: bool|
            call_ensures(wanted, (value,), answer) ==> answer == spec_wanted(value@),
    ensures
        count == keys_where(table@, spec_wanted).len(),
        keys_where(table@, spec_wanted).finite(),
{
    let total: usize = table.len();
    let ghost keys = table.keys();
    let ghost mut found: Set<K::V> = Set::empty();
    let mut count: usize = 0;
    let mut i: usize = 0;
    while i < total
        invariant
            table.wf(),
            i <= total,
            count <= i,
            keys == table.keys(),
            total == keys.len(),
            lists_keys::<K, V::V>(keys, table@),
            forall|value: &V| call_requires(wanted, (value,)),
            forall|value: &V, answer: bool|
                call_ensures(wanted, (value,), answer) ==> answer == spec_wanted(value@),
            found.finite(),
            count == found.len(),
            forall|key: K::V| #[trigger]
                found.contains(key) <==> exists|j: int|
                    0 <= j < i && #[trigger] keys[j] == key && spec_wanted(table@[key]),
        decreases total - i,
    {
        let ghost before = found;
        if wanted(table.value_at(i)) {
            proof {
                if found.contains(keys[i as int]) {
                    let j = choose|j: int|
                        0 <= j < i && #[trigger] keys[j] == keys[i as int] && spec_wanted(
                            table@[keys[i as int]],
                        );
                    K::order_laws(keys[j], keys[j], keys[j]);
                    assert(K::before(keys[j], keys[i as int]));
                }
                found = found.insert(keys[i as int]);
            }
            count += 1;
        }
        proof {
            assert forall|key: K::V| #[trigger] found.contains(key) <==> exists|j: int|
                0 <= j < i + 1 && #[trigger] keys[j] == key && spec_wanted(table@[key]) by {
                if before.contains(key) {
                    let j = choose|j: int|
                        0 <= j < i && #[trigger] keys[j] == key && spec_wanted(table@[key]);
                    assert(keys[j] == key);
                }
                if spec_wanted(table@[keys[i as int]]) && key == keys[i as int] {
                    assert(keys[i as int] == key);
                }
            }
        }
        i += 1;
    }
    proof {
        assert forall|key: K::V| #[trigger] found.contains(key) <==> keys_where(
            table@,
            spec_wanted,
        ).contains(key) by {
            if found.contains(key) {
                let j = choose|j: int|
                    0 <= j < total && #[trigger] keys[j] == key && spec_wanted(table@[key]);
                assert(table@.contains_key(keys[j]));
            }
            if table@.contains_key(key) && spec_wanted(table@[key]) {
                assert(keys.contains(key));
                let j = choose|j: int| 0 <= j < keys.len() && keys[j] == key;
                assert(keys[j] == key);
            }
        }
        assert(found =~= keys_where(table@, spec_wanted));
    }
    count
}

/// The map with the values that have a property.
pub open spec fn map_where<K, W>(map: Map<K, W>, kept: spec_fn(W) -> bool) -> Map<K, W> {
    map.restrict(keys_where(map, kept))
}

/// Copies the entries whose values have a property.
pub fn filtered<K, V, F>(
    table: &SortedMap<K, V>,
    kept: F,
    Ghost(spec_kept): Ghost<spec_fn(V::V) -> bool>,
) -> (copy: SortedMap<K, V>) where K: OrderedKey + Record, V: Record, F: Fn(&V) -> bool
    requires
        table.wf(),
        forall|value: &V| call_requires(kept, (value,)),
        forall|value: &V, answer: bool|
            call_ensures(kept, (value,), answer) ==> answer == spec_kept(value@),
    ensures
        copy.wf(),
        copy@ == map_where(table@, spec_kept),
{
    let total: usize = table.len();
    let ghost keys = table.keys();
    let mut copy: SortedMap<K, V> = SortedMap::new();
    let mut i: usize = 0;
    while i < total
        invariant
            table.wf(),
            copy.wf(),
            i <= total,
            keys == table.keys(),
            total == keys.len(),
            lists_keys::<K, V::V>(keys, table@),
            forall|value: &V| call_requires(kept, (value,)),
            forall|value: &V, answer: bool|
                call_ensures(kept, (value,), answer) ==> answer == spec_kept(value@),
            forall|key: K::V| #[trigger]
                copy@.contains_key(key) <==> exists|j: int|
                    0 <= j < i && #[trigger] keys[j] == key && spec_kept(table@[key]),
            forall|key: K::V| #[trigger] copy@.contains_key(key) ==> copy@[key] == table@[key],
        decreases total - i,
    {
        let ghost before = copy@;
        let value = table.value_at(i);
        if kept(value) {
            copy.insert(table.key_at(i).duplicate(), value.duplicate());
        }
        proof {
            assert forall|key: K::V| #[trigger] copy@.contains_key(key) <==> exists|j: int|
                0 <= j < i + 1 && #[trigger] keys[j] == key && spec_kept(table@[key]) by {
                if before.contains_key(key) {
                    let j = choose|j: int|
                        0 <= j < i && #[trigger] keys[j] == key && spec_kept(table@[key]);
                    assert(keys[j] == key);
                }
                if spec_kept(table@[keys[i as int]]) && key == keys[i as int] {
                    assert(keys[i as int] == key);
                }
            }
        }
        i += 1;
    }
    proof {
        let wanted = map_where(table@, spec_kept);
        assert forall|key: K::V| #[trigger] copy@.contains_key(key) <==> wanted.contains_key(
            key,
        ) by {
            if copy@.contains_key(key) {
                let j = choose|j: int|
                    0 <= j < total && #[trigger] keys[j] == key && spec_kept(table@[key]);
                assert(table@.contains_key(keys[j]));
            }
            if table@.contains_key(key) && spec_kept(table@[key]) {
                assert(keys.contains(key));
                let j = choose|j: int| 0 <= j < keys.len() && keys[j] == key;
                assert(keys[j] == key);
            }
        }
        assert(copy@ =~= wanted);
    }
    copy
}

impl Record for String {
    fn duplicate(&self) -> (copy: String) {
        self.clone()
    }
}

impl Record for u64 {
    fn duplicate(&self) -> (copy: u64) {
        *self
    }
}

impl<A: Record, B: Record> Record for (A, B) {
    fn duplicate(&self) -> (copy: (A, B)) {
        (self.0.duplicate(), self.1.duplicate())
    }
}

/// The same values once more, in order.
pub fn duplicates<T: Record>(values: &Vec<T>) -> (copies: Vec<T>)
    ensures
        views(copies@) == views(values@),
{
    let mut copies: Vec<T> = Vec::new();
    let mut i: usize = 0;
    while i < values.len()
        invariant
            i <= values@.len(),
            copies@.len() == i,
            forall|j: int| 0 <= j < i ==> (#[trigger] copies@[j])@ == values@[j]@,
        decreases values@.len() - i,
    {
        copies.push(values[i].duplicate());
        i += 1;
    }
    assert(views(copies@) =~= views(values@));
    copies
}

} // verus!
