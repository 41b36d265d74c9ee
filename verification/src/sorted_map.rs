//! A table from keys to values that keeps its entries in ascending key
//! order, so that it can be listed page by page.

use vstd::prelude::*;
use crate::order::{Key, Place};

verus! {

#[derive(Clone, Debug, PartialEq, Eq)]
pub struct Entry<K, T> {
    pub key: K,
    pub value: T,
}

pub struct SortedMap<K: Key, T: Copy> {
    entries: Vec<Entry<K, T>>,
}

/// `page` lists, in ascending order, the first `limit` members of `set`,
/// or all of them where there are no more than `limit`.
pub open spec fn is_page<K: Key>(page: Seq<K::Id>, set: Set<K::Id>, limit: nat) -> bool {
    &&& page.len() <= limit
    &&& forall|i: int| 0 <= i < page.len() ==> set.contains(#[trigger] page[i])
    &&& forall|i: int, j: int|
        0 <= i < j < page.len() ==> K::before(#[trigger] page[i], #[trigger] page[j])
    &&& forall|k: K::Id| #[trigger]
        set.contains(k) ==> page.contains(k) || (page.len() == limit && (limit == 0 || K::before(
            page.last(),
            k,
        )))
}

pub open spec fn id_at<K: Key, T>(s: Seq<Entry<K, T>>, i: int) -> K::Id {
    s[i].key.id()
}

/// Each entry's key stands before the keys of the entries behind it.
pub open spec fn ascending<K: Key, T>(s: Seq<Entry<K, T>>) -> bool {
    forall|i: int, j: int|
        0 <= i < j < s.len() ==> K::before(#[trigger] id_at(s, i), #[trigger] id_at(s, j))
}

pub open spec fn holds<K: Key, T>(s: Seq<Entry<K, T>>, k: K::Id) -> bool {
    exists|i: int| 0 <= i < s.len() && #[trigger] id_at(s, i) == k
}

pub open spec fn index_of<K: Key, T>(s: Seq<Entry<K, T>>, k: K::Id) -> int {
    choose|i: int| 0 <= i < s.len() && #[trigger] id_at(s, i) == k
}

/// The map that a sequence of entries stands for.
pub open spec fn as_map<K: Key, T>(s: Seq<Entry<K, T>>) -> Map<K::Id, T> {
    Map::new(|k: K::Id| holds(s, k), |k: K::Id| s[index_of(s, k)].value)
}

proof fn lemma_unique<K: Key, T>(s: Seq<Entry<K, T>>, i: int, j: int)
    requires
        ascending(s),
        0 <= i < s.len(),
        0 <= j < s.len(),
        id_at(s, i) == id_at(s, j),
    ensures
        i == j,
{
    K::lemma_irreflexive(id_at(s, i));
}

/// In an ascending sequence each entry is found under its key.
pub proof fn lemma_entry<K: Key, T>(s: Seq<Entry<K, T>>, i: int)
    requires
        ascending(s),
        0 <= i < s.len(),
    ensures
        as_map(s).contains_key(id_at(s, i)),
        as_map(s)[id_at(s, i)] == s[i].value,
{
    let k = id_at(s, i);
    assert(holds(s, k));
    lemma_unique(s, i, index_of(s, k));
}

/// From the place `at` on no key stands before `k`, given that the key at
/// `at` does not.
proof fn lemma_none_before_from<K: Key, T>(s: Seq<Entry<K, T>>, at: int, k: K::Id)
    requires
        ascending(s),
        0 <= at <= s.len(),
        at < s.len() ==> !K::before(id_at(s, at), k),
    ensures
        forall|j: int| at <= j < s.len() ==> !K::before(#[trigger] id_at(s, j), k),
{
    assert forall|j: int| at <= j < s.len() implies !K::before(#[trigger] id_at(s, j), k) by {
        if at < j && K::before(id_at(s, j), k) {
            K::lemma_transitive(id_at(s, at), id_at(s, j), k);
        }
    }
}

/// A key that is not held stands between the keys before its rank and
/// those from its rank on.
proof fn lemma_gap<K: Key, T>(s: Seq<Entry<K, T>>, at: int, k: K::Id)
    requires
        ascending(s),
        0 <= at <= s.len(),
        forall|j: int| 0 <= j < at ==> K::before(#[trigger] id_at(s, j), k),
        at < s.len() ==> !K::before(id_at(s, at), k) && id_at(s, at) != k,
    ensures
        !holds(s, k),
        forall|j: int| at <= j < s.len() ==> K::before(k, #[trigger] id_at(s, j)),
{
    lemma_none_before_from(s, at, k);
    assert forall|j: int| at <= j < s.len() implies K::before(k, #[trigger] id_at(s, j)) by {
        K::lemma_connected(k, id_at(s, j));
        if id_at(s, j) == k {
            assert(at < j);
            K::lemma_irreflexive(k);
        }
    }
    if holds(s, k) {
        let j = index_of(s, k);
        K::lemma_irreflexive(k);
    }
}

/// Putting an entry at the place where its key belongs keeps the order and
/// adds the entry to the map.
pub proof fn lemma_inserted<K: Key, T>(s: Seq<Entry<K, T>>, at: int, e: Entry<K, T>)
    requires
        ascending(s),
        0 <= at <= s.len(),
        forall|j: int| 0 <= j < at ==> K::before(#[trigger] id_at(s, j), e.key.id()),
        at < s.len() ==> !K::before(id_at(s, at), e.key.id()) && id_at(s, at) != e.key.id(),
    ensures
        ascending(s.insert(at, e)),
        as_map(s.insert(at, e)) == as_map(s).insert(e.key.id(), e.value),
{
    let k = e.key.id();
    let t = s.insert(at, e);
    lemma_gap(s, at, k);
    assert forall|i: int, j: int| 0 <= i < j < t.len() implies K::before(
        #[trigger] id_at(t, i),
        #[trigger] id_at(t, j),
    ) by {
        let a = if i < at { i } else { i - 1 };
        let b = if j < at { j } else { j - 1 };
        if i != at && j != at {
            assert(id_at(t, i) == id_at(s, a));
            assert(id_at(t, j) == id_at(s, b));
        } else if i == at {
            assert(id_at(t, j) == id_at(s, b));
        } else {
            assert(id_at(t, i) == id_at(s, a));
        }
    }
    assert forall|q: K::Id| as_map(t).contains_key(q) <==> as_map(s).insert(k, e.value).contains_key(q) by {
        if holds(t, q) {
            let i = index_of(t, q);
            if i < at {
                assert(id_at(s, i) == q);
            } else if i > at {
                assert(id_at(s, i - 1) == q);
            }
        }
        if holds(s, q) {
            let i = index_of(s, q);
            if i < at {
                assert(id_at(t, i) == q);
            } else {
                assert(id_at(t, i + 1) == q);
            }
        }
        if q == k {
            assert(id_at(t, at) == q);
        }
    }
    assert forall|q: K::Id| as_map(t).contains_key(q) implies as_map(t)[q] == as_map(s).insert(
        k,
        e.value,
    )[q] by {
        let i = index_of(t, q);
        lemma_entry(t, i);
        if i < at {
            assert(id_at(s, i) == q);
            lemma_entry(s, i);
        } else if i > at {
            assert(id_at(s, i - 1) == q);
            lemma_entry(s, i - 1);
        }
    }
    assert(as_map(t) =~= as_map(s).insert(k, e.value));
}

proof fn lemma_updated<K: Key, T>(s: Seq<Entry<K, T>>, at: int, e: Entry<K, T>)
    requires
        ascending(s),
        0 <= at < s.len(),
        id_at(s, at) == e.key.id(),
    ensures
        ascending(s.update(at, e)),
        as_map(s.update(at, e)) == as_map(s).insert(e.key.id(), e.value),
{
    let k = e.key.id();
    let t = s.update(at, e);
    assert forall|i: int| 0 <= i < t.len() implies #[trigger] id_at(t, i) == id_at(s, i) by {}
    assert forall|i: int, j: int| 0 <= i < j < t.len() implies K::before(
        #[trigger] id_at(t, i),
        #[trigger] id_at(t, j),
    ) by {
        assert(K::before(id_at(s, i), id_at(s, j)));
    }
    assert forall|q: K::Id| as_map(t).contains_key(q) <==> as_map(s).insert(k, e.value).contains_key(q) by {
        if holds(t, q) {
            assert(id_at(s, index_of(t, q)) == q);
        }
        if holds(s, q) {
            assert(id_at(t, index_of(s, q)) == q);
        }
        if q == k {
            assert(id_at(t, at) == q);
        }
    }
    assert forall|q: K::Id| as_map(t).contains_key(q) implies as_map(t)[q] == as_map(s).insert(
        k,
        e.value,
    )[q] by {
        let i = index_of(t, q);
        lemma_entry(t, i);
        if i != at {
            assert(id_at(s, i) == q);
            lemma_entry(s, i);
            if q == k {
                lemma_unique(s, i, at);
            }
        }
    }
    assert(as_map(t) =~= as_map(s).insert(k, e.value));
}

proof fn lemma_removed<K: Key, T>(s: Seq<Entry<K, T>>, at: int)
    requires
        ascending(s),
        0 <= at < s.len(),
    ensures
        ascending(s.remove(at)),
        as_map(s.remove(at)) == as_map(s).remove(id_at(s, at)),
{
    let k = id_at(s, at);
    let t = s.remove(at);
    assert forall|i: int| 0 <= i < t.len() implies #[trigger] id_at(t, i) == id_at(
        s,
        if i < at { i } else { i + 1 },
    ) by {}
    assert forall|i: int, j: int| 0 <= i < j < t.len() implies K::before(
        #[trigger] id_at(t, i),
        #[trigger] id_at(t, j),
    ) by {
        let a = if i < at { i } else { i + 1 };
        let b = if j < at { j } else { j + 1 };
        assert(K::before(id_at(s, a), id_at(s, b)));
    }
    assert forall|q: K::Id| as_map(t).contains_key(q) <==> as_map(s).remove(k).contains_key(q) by {
        if holds(t, q) {
            let i = index_of(t, q);
            let a = if i < at { i } else { i + 1 };
            assert(id_at(s, a) == q);
            lemma_unique(s, a, if q == k { at } else { a });
        }
        if holds(s, q) && q != k {
            let i = index_of(s, q);
            if i < at {
                assert(id_at(t, i) == q);
            } else {
                assert(id_at(t, i - 1) == q);
            }
        }
    }
    assert forall|q: K::Id| as_map(t).contains_key(q) implies as_map(t)[q] == as_map(s).remove(k)[q] by {
        let i = index_of(t, q);
        lemma_entry(t, i);
        let a = if i < at { i } else { i + 1 };
        assert(id_at(s, a) == q);
        lemma_entry(s, a);
    }
    assert(as_map(t) =~= as_map(s).remove(k));
}

impl<K: Key, T: Copy> View for SortedMap<K, T> {
    type V = Map<K::Id, T>;

    closed spec fn view(&self) -> Map<K::Id, T> {
        as_map(self.entries@)
    }
}

impl<K: Key, T: Copy> SortedMap<K, T> {
    /// The entries stand in strictly ascending key order.
    pub closed spec fn wf(&self) -> bool {
        ascending(self.entries@)
    }

    /// The keys in the order in which the table lists them.
    pub closed spec fn keys(&self) -> Seq<K::Id> {
        Seq::new(self.entries@.len(), |i: int| id_at(self.entries@, i))
    }

    /// The listing holds each key of the map once, in ascending order.
    pub proof fn lemma_keys(&self)
        requires
            self.wf(),
        ensures
            forall|i: int, j: int|
                0 <= i < j < self.keys().len() ==> K::before(
                    #[trigger] self.keys()[i],
                    #[trigger] self.keys()[j],
                ),
            forall|i: int| 0 <= i < self.keys().len() ==> self@.contains_key(#[trigger] self.keys()[i]),
            forall|k: K::Id| self@.contains_key(k) ==> self.keys().contains(k),
            self@.dom().finite(),
    {
        let s = self.entries@;
        assert forall|i: int, j: int| 0 <= i < j < self.keys().len() implies K::before(
            #[trigger] self.keys()[i],
            #[trigger] self.keys()[j],
        ) by {
            assert(K::before(id_at(s, i), id_at(s, j)));
        }
        assert forall|i: int| 0 <= i < self.keys().len() implies self@.contains_key(
            #[trigger] self.keys()[i],
        ) by {
            lemma_entry(s, i);
        }
        assert forall|k: K::Id| self@.contains_key(k) implies self.keys().contains(k) by {
            let i = index_of(s, k);
            assert(self.keys()[i] == k);
        }
        assert(self@.dom() =~= self.keys().to_set());
        vstd::seq_lib::seq_to_set_is_finite(self.keys());
    }

    /// The entries in ascending key order.
    pub fn to_vec(&self) -> (r: Vec<Entry<K, T>>)
        requires
            self.wf(),
        ensures
            ascending(r@),
            as_map(r@) == self@,
    {
        let mut out: Vec<Entry<K, T>> = Vec::new();
        let mut i: usize = 0;
        while i < self.entries.len()
            invariant
                i <= self.entries@.len(),
                out@.len() == i,
                forall|j: int|
                    0 <= j < i ==> id_at(out@, j) == id_at(self.entries@, j) && (#[trigger] out@[j]).value
                        == self.entries@[j].value,
            decreases self.entries@.len() - i,
        {
            out.push(Entry { key: self.entries[i].key.duplicate(), value: self.entries[i].value });
            i += 1;
        }
        proof {
            let s = self.entries@;
            let t = out@;
            assert forall|j: int| 0 <= j < t.len() implies #[trigger] id_at(t, j) == id_at(s, j) by {
                assert(t[j].value == s[j].value);
            }
            assert forall|a: int, b: int| 0 <= a < b < t.len() implies K::before(
                #[trigger] id_at(t, a),
                #[trigger] id_at(t, b),
            ) by {
                assert(K::before(id_at(s, a), id_at(s, b)));
            }
            assert forall|q: K::Id| as_map(t).contains_key(q) <==> as_map(s).contains_key(q) by {
                if holds(t, q) {
                    assert(id_at(s, index_of(t, q)) == q);
                }
                if holds(s, q) {
                    assert(id_at(t, index_of(s, q)) == q);
                }
            }
            assert forall|q: K::Id| as_map(t).contains_key(q) implies as_map(t)[q] == as_map(s)[q] by {
                let j = index_of(t, q);
                lemma_entry(t, j);
                assert(id_at(s, j) == q);
                lemma_entry(s, j);
                assert(t[j].value == s[j].value);
            }
            assert(as_map(t) =~= as_map(s));
        }
        out
    }

    pub fn new() -> (r: Self)
        ensures
            r.wf(),
            r@ == Map::<K::Id, T>::empty(),
            r.keys().len() == 0,
    {
        let r = SortedMap { entries: Vec::new() };
        assert(r@ =~= Map::<K::Id, T>::empty());
        r
    }

    /// The number of entries.
    pub fn len(&self) -> (n: usize)
        ensures
            n == self.keys().len(),
    {
        self.entries.len()
    }

    /// The key at place `i` of the listing.
    pub fn key(&self, i: usize) -> (k: &K)
        requires
            i < self.keys().len(),
        ensures
            k.id() == self.keys()[i as int],
    {
        &self.entries[i].key
    }

    /// The value under the key at place `i` of the listing.
    pub fn value(&self, i: usize) -> (v: T)
        requires
            self.wf(),
            i < self.keys().len(),
        ensures
            v == self@[self.keys()[i as int]],
    {
        proof {
            lemma_entry(self.entries@, i as int);
        }
        self.entries[i].value
    }

    /// The number of keys that stand before `bound`: the place in the
    /// listing at which `bound` stands or would stand.
    pub fn rank(&self, bound: &K) -> (n: usize)
        requires
            self.wf(),
        ensures
            n <= self.keys().len(),
            forall|i: int| 0 <= i < n ==> K::before(#[trigger] self.keys()[i], bound.id()),
            forall|i: int|
                n <= i < self.keys().len() ==> !K::before(#[trigger] self.keys()[i], bound.id()),
    {
        let mut n: usize = 0;
        while n < self.entries.len()
            invariant
                n <= self.entries@.len(),
                forall|i: int| 0 <= i < n ==> K::before(#[trigger] id_at(self.entries@, i), bound.id()),
            ensures
                n <= self.entries@.len(),
                forall|i: int| 0 <= i < n ==> K::before(#[trigger] id_at(self.entries@, i), bound.id()),
                n < self.entries@.len() ==> !K::before(id_at(self.entries@, n as int), bound.id()),
            decreases self.entries@.len() - n,
        {
            match self.entries[n].key.place(bound) {
                Place::Before => {
                    n += 1;
                },
                _ => {
                    break ;
                },
            }
        }
        proof {
            lemma_none_before_from(self.entries@, n as int, bound.id());
            assert forall|i: int| 0 <= i < n implies K::before(
                #[trigger] self.keys()[i],
                bound.id(),
            ) by {
                assert(K::before(id_at(self.entries@, i), bound.id()));
            }
            assert forall|i: int| n <= i < self.keys().len() implies !K::before(
                #[trigger] self.keys()[i],
                bound.id(),
            ) by {
                assert(!K::before(id_at(self.entries@, i), bound.id()));
            }
        }
        n
    }

    /// The number of keys that do not stand after `bound`: the place in the
    /// listing of the first key behind `bound`.
    pub fn first_after(&self, bound: &K) -> (n: usize)
        requires
            self.wf(),
        ensures
            n <= self.keys().len(),
            forall|i: int| 0 <= i < n ==> !K::before(bound.id(), #[trigger] self.keys()[i]),
            forall|i: int|
                n <= i < self.keys().len() ==> K::before(bound.id(), #[trigger] self.keys()[i]),
    {
        let r = self.rank(bound);
        let mut n = r;
        if r < self.entries.len() {
            match self.entries[r].key.place(bound) {
                Place::Same => {
                    n = r + 1;
                },
                _ => {},
            }
        }
        proof {
            let b = bound.id();
            K::lemma_irreflexive(b);
            assert forall|i: int| 0 <= i < n implies !K::before(b, #[trigger] self.keys()[i]) by {
                if i < r {
                    assert(K::before(self.keys()[i], b));
                    if K::before(b, self.keys()[i]) {
                        K::lemma_transitive(b, self.keys()[i], b);
                    }
                } else {
                    assert(self.keys()[i] == id_at(self.entries@, i));
                }
            }
            assert forall|i: int| n <= i < self.keys().len() implies K::before(
                b,
                #[trigger] self.keys()[i],
            ) by {
                assert(!K::before(self.keys()[i], b));
                K::lemma_connected(b, self.keys()[i]);
                if self.keys()[i] == b {
                    assert(self.keys()[r as int] == id_at(self.entries@, r as int));
                    assert(self.keys()[i] == id_at(self.entries@, i));
                    if r < i {
                        assert(K::before(id_at(self.entries@, r as int), id_at(self.entries@, i)));
                        assert(!K::before(self.keys()[r as int], b));
                    }
                }
            }
        }
        n
    }

    /// The value under `key`, if the table holds the key.
    pub fn get(&self, key: &K) -> (r: Option<T>)
        requires
            self.wf(),
        ensures
            r == if self@.contains_key(key.id()) {
                Some(self@[key.id()])
            } else {
                None::<T>
            },
    {
        let n = self.rank(key);
        if n < self.entries.len() {
            match self.entries[n].key.place(key) {
                Place::Same => {
                    proof {
                        lemma_entry(self.entries@, n as int);
                    }
                    return Some(self.entries[n].value);
                },
                _ => {},
            }
        }
        proof {
            let s = self.entries@;
            assert forall|j: int| 0 <= j < n implies K::before(#[trigger] id_at(s, j), key.id()) by {
                assert(K::before(self.keys()[j], key.id()));
            }
            if n < s.len() {
                assert(!K::before(self.keys()[n as int], key.id()));
            }
            lemma_gap(s, n as int, key.id());
        }
        None
    }

    /// Puts `value` under `key`, in place of the value that was there.
    pub fn insert(&mut self, key: K, value: T)
        requires
            old(self).wf(),
        ensures
            final(self).wf(),
            final(self)@ == old(self)@.insert(key.id(), value),
    {
        let n = self.rank(&key);
        let ghost s = self.entries@;
        proof {
            assert forall|j: int| 0 <= j < n implies K::before(#[trigger] id_at(s, j), key.id()) by {
                assert(K::before(self.keys()[j], key.id()));
            }
            if n < s.len() {
                assert(!K::before(self.keys()[n as int], key.id()));
            }
        }
        let mut found = false;
        if n < self.entries.len() {
            match self.entries[n].key.place(&key) {
                Place::Same => {
                    found = true;
                },
                _ => {},
            }
        }
        let entry = Entry { key, value };
        if found {
            proof {
                lemma_updated(s, n as int, entry);
            }
            self.entries.set(n, entry);
        } else {
            proof {
                lemma_inserted(s, n as int, entry);
            }
            self.entries.insert(n, entry);
        }
    }

    /// Takes `key` and its value out of the table, if it holds the key.
    pub fn remove(&mut self, key: &K)
        requires
            old(self).wf(),
        ensures
            final(self).wf(),
            final(self)@ == old(self)@.remove(key.id()),
    {
        let n = self.rank(key);
        let ghost s = self.entries@;
        proof {
            assert forall|j: int| 0 <= j < n implies K::before(#[trigger] id_at(s, j), key.id()) by {
                assert(K::before(self.keys()[j], key.id()));
            }
            if n < s.len() {
                assert(!K::before(self.keys()[n as int], key.id()));
            }
        }
        let mut found = false;
        if n < self.entries.len() {
            match self.entries[n].key.place(key) {
                Place::Same => {
                    found = true;
                },
                _ => {},
            }
        }
        if found {
            proof {
                lemma_removed(s, n as int);
            }
            self.entries.remove(n);
        } else {
            proof {
                lemma_gap(s, n as int, key.id());
                assert(self@ =~= self@.remove(key.id()));
            }
        }
    }
}

} // verus!
