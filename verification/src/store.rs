//! Small ordered stores: a map that keeps its entries in insertion order, and
//! a set that does the same. The reactor iterates several of its collections
//! and takes the first element that fits, so the order is part of the model.
use vstd::prelude::*;

use crate::ids::{SpaceId, WindowId, WindowServerId};
use crate::seq_util::{
    first_index, first_match, lemma_first_index_exists, lemma_first_index_found,
    lemma_first_index_none, lemma_first_match_push, lemma_first_match_update,
};

verus! {

/// A key that can be compared in executable code.
pub trait Key: Copy + Sized {
    fn same(&self, other: &Self) -> (r: bool)
        ensures
            r == (*self == *other),
    ;
}

impl Key for u32 {
    fn same(&self, other: &Self) -> (r: bool) {
        *self == *other
    }
}

impl Key for i32 {
    fn same(&self, other: &Self) -> (r: bool) {
        *self == *other
    }
}

impl Key for WindowId {
    fn same(&self, other: &Self) -> (r: bool) {
        self.pid == other.pid && self.idx == other.idx
    }
}

impl Key for WindowServerId {
    fn same(&self, other: &Self) -> (r: bool) {
        self.id == other.id
    }
}

impl Key for SpaceId {
    fn same(&self, other: &Self) -> (r: bool) {
        self.id == other.id
    }
}

/// Entry predicate: the entry's key is `k`.
pub open spec fn key_is<K, V>(k: K) -> spec_fn((K, V)) -> bool {
    |e: (K, V)| e.0 == k
}

/// The keys of the entries whose value is `v`, in entry order.
pub open spec fn keys_with_value<K, V>(s: Seq<(K, V)>, v: V) -> Seq<K>
    decreases s.len(),
{
    if s.len() == 0 {
        Seq::empty()
    } else {
        let rest = keys_with_value(s.drop_last(), v);
        if s.last().1 == v {
            rest.push(s.last().0)
        } else {
            rest
        }
    }
}

/// Every key listed for `v` has an entry with value `v`, and back.
pub proof fn lemma_keys_with_value<K, V>(s: Seq<(K, V)>, v: V)
    ensures
        forall|k: K|
            #![trigger keys_with_value(s, v).contains(k)]
            keys_with_value(s, v).contains(k) <==> exists|i: int|
                0 <= i < s.len() && #[trigger] s[i] == (k, v),
    decreases s.len(),
{
    if s.len() > 0 {
        let t = s.drop_last();
        lemma_keys_with_value(t, v);
        assert forall|k: K|
            #![trigger keys_with_value(s, v).contains(k)]
            keys_with_value(s, v).contains(k) <==> exists|i: int|
                0 <= i < s.len() && #[trigger] s[i] == (k, v) by {
            let r = keys_with_value(t, v);
            if keys_with_value(s, v).contains(k) {
                if r.contains(k) {
                    let i = choose|i: int| 0 <= i < t.len() && #[trigger] t[i] == (k, v);
                    assert(s[i] == t[i]);
                } else {
                    assert(s.last().1 == v);
                    let j = choose|j: int| 0 <= j < r.push(s.last().0).len() && r.push(s.last().0)[j] == k;
                    assert(j == r.len());
                    assert(s[s.len() - 1] == (k, v));
                }
            }
            if exists|i: int| 0 <= i < s.len() && #[trigger] s[i] == (k, v) {
                let i = choose|i: int| 0 <= i < s.len() && #[trigger] s[i] == (k, v);
                if i < s.len() - 1 {
                    assert(t[i] == s[i]);
                    assert(r.contains(k));
                    if s.last().1 == v {
                        let j = choose|j: int| 0 <= j < r.len() && r[j] == k;
                        assert(r.push(s.last().0)[j] == k);
                    }
                } else {
                    assert(s.last() == (k, v));
                    assert(r.push(k)[r.len() as int] == k);
                }
            }
        }
    }
}

/// No key occurs twice among the entries.
pub open spec fn distinct_keys<K, V>(s: Seq<(K, V)>) -> bool {
    forall|i: int, j: int| 0 <= i < j < s.len() ==> #[trigger] s[i].0 != #[trigger] s[j].0
}

/// The value stored under `k`: that of the first entry with key `k`.
pub open spec fn lookup<K, V>(s: Seq<(K, V)>, k: K) -> Option<V> {
    match first_match(s, key_is::<K, V>(k)) {
        Some(e) => Some(e.1),
        None => None,
    }
}

pub open spec fn key_is_not<K, V>(k: K) -> spec_fn((K, V)) -> bool {
    |e: (K, V)| e.0 != k
}

/// The entries after `k` was given the value `v`: the first entry of `k`
/// changes in place, or a new entry goes at the end.
pub open spec fn map_insert<K, V>(s: Seq<(K, V)>, k: K, v: V) -> Seq<(K, V)> {
    match first_index(s, key_is::<K, V>(k)) {
        Some(i) => s.update(i, (k, v)),
        None => s.push((k, v)),
    }
}

/// The entries without those of `k`.
pub open spec fn map_remove<K, V>(s: Seq<(K, V)>, k: K) -> Seq<(K, V)> {
    s.filter(key_is_not::<K, V>(k))
}

/// The entries after the value of `from` moved, in place, to the key `to`;
/// only when `from` has an entry and `to` has none.
pub open spec fn map_rekey<K, V>(s: Seq<(K, V)>, from: K, to: K) -> Seq<(K, V)> {
    match first_index(s, key_is::<K, V>(from)) {
        Some(i) => if first_index(s, key_is::<K, V>(to)) is None {
            s.update(i, (to, s[i].1))
        } else {
            s
        },
        None => s,
    }
}

pub proof fn lemma_lookup_none_means_absent<K, V>(s: Seq<(K, V)>, k: K)
    requires
        lookup(s, k) is None,
    ensures
        forall|a: int| 0 <= a < s.len() ==> (#[trigger] s[a]).0 != k,
{
    lemma_first_index_exists(s, key_is::<K, V>(k));
    assert forall|a: int| 0 <= a < s.len() implies (#[trigger] s[a]).0 != k by {
        if s[a].0 == k {
            assert(key_is::<K, V>(k)(s[a]));
        }
    }
}

/// With distinct keys, every entry is the one its key finds.
pub proof fn lemma_distinct_lookup<K, V>(s: Seq<(K, V)>, i: int)
    requires
        distinct_keys(s),
        0 <= i < s.len(),
    ensures
        lookup(s, s[i].0) == Some(s[i].1),
        first_index(s, key_is::<K, V>(s[i].0)) == Some(i),
{
    let k = s[i].0;
    assert forall|j: int| 0 <= j < i implies !key_is::<K, V>(k)(#[trigger] s[j]) by {
        assert(s[j].0 != s[i].0);
    }
    lemma_first_index_found(s, key_is::<K, V>(k), i);
}

pub proof fn lemma_map_insert<K, V>(s: Seq<(K, V)>, k: K, v: V)
    ensures
        distinct_keys(s) ==> distinct_keys(map_insert(s, k, v)),
        forall|q: K|
            #![trigger lookup(map_insert(s, k, v), q)]
            lookup(map_insert(s, k, v), q) == if q == k {
                Some(v)
            } else {
                lookup(s, q)
            },
{
    let t = map_insert(s, k, v);
    match first_index(s, key_is::<K, V>(k)) {
        Some(i) => {
            let kk = choose|x: int| crate::seq_util::is_first(s, key_is::<K, V>(k), x);
            assert(crate::seq_util::is_first(s, key_is::<K, V>(k), kk));
            assert(s[i].0 == k);
            if distinct_keys(s) {
                assert forall|a: int, b: int| 0 <= a < b < t.len() implies #[trigger] t[a].0
                    != #[trigger] t[b].0 by {
                    assert(s[a].0 == t[a].0);
                    assert(s[b].0 == t[b].0);
                }
            }
            assert forall|q: K|
                #![trigger lookup(t, q)]
                lookup(t, q) == if q == k {
                    Some(v)
                } else {
                    lookup(s, q)
                } by {
                lemma_first_match_update(s, i, (k, v), key_is::<K, V>(q));
            }
        },
        None => {
            if distinct_keys(s) {
                assert forall|a: int, b: int| 0 <= a < b < t.len() implies #[trigger] t[a].0
                    != #[trigger] t[b].0 by {
                    if b == s.len() {
                        assert(s[a] == t[a]);
                        lemma_first_index_exists(s, key_is::<K, V>(k));
                        assert(!key_is::<K, V>(k)(s[a]));
                    } else {
                        assert(s[a] == t[a]);
                        assert(s[b] == t[b]);
                    }
                }
            }
            assert forall|q: K|
                #![trigger lookup(t, q)]
                lookup(t, q) == if q == k {
                    Some(v)
                } else {
                    lookup(s, q)
                } by {
                lemma_first_match_push(s, (k, v), key_is::<K, V>(q));
            }
        },
    }
}

pub proof fn lemma_map_remove<K, V>(s: Seq<(K, V)>, k: K)
    ensures
        distinct_keys(s) ==> distinct_keys(map_remove(s, k)),
        forall|q: K|
            #![trigger lookup(map_remove(s, k), q)]
            lookup(map_remove(s, k), q) == if q == k {
                None
            } else {
                lookup(s, q)
            },
    decreases s.len(),
{
    reveal(Seq::filter);
    let p = key_is_not::<K, V>(k);
    if distinct_keys(s) {
        lemma_filter_keeps_distinct_keys(s, p);
    }
    if s.len() == 0 {
        assert(map_remove(s, k) == s.filter(p));
        assert(s.filter(p) == s);
        assert forall|q: K| #![trigger lookup(map_remove(s, k), q)] lookup(map_remove(s, k), q) == if q == k {
            None
        } else {
            lookup(s, q)
        } by {
            lemma_first_index_none(s, key_is::<K, V>(q));
            assert(map_remove(s, k).len() == 0);
            lemma_first_index_none(map_remove(s, k), key_is::<K, V>(q));
            assert(lookup(s, q) is None);
            assert(lookup(map_remove(s, k), q) is None);
        }
    } else {
        let t = s.drop_last();
        let e = s.last();
        lemma_map_remove(t, k);
        assert(s == t.push(e));
        t.lemma_filter_push(e, p);
        assert forall|q: K| #![trigger lookup(map_remove(s, k), q)] lookup(map_remove(s, k), q) == if q == k {
            None
        } else {
            lookup(s, q)
        } by {
            lemma_first_match_push(t, e, key_is::<K, V>(q));
            let r = lookup(map_remove(t, k), q);
            if e.0 != k {
                assert(map_remove(s, k) == map_remove(t, k).push(e));
                lemma_first_match_push(map_remove(t, k), e, key_is::<K, V>(q));
            } else {
                assert(map_remove(s, k) == map_remove(t, k));
            }
        }
    }
}

pub proof fn lemma_map_rekey<K, V>(s: Seq<(K, V)>, from: K, to: K)
    requires
        distinct_keys(s),
    ensures
        distinct_keys(map_rekey(s, from, to)),
        forall|q: K|
            #![trigger lookup(map_rekey(s, from, to), q)]
            lookup(map_rekey(s, from, to), q) == if lookup(s, from) is None || lookup(s, to) is Some {
                lookup(s, q)
            } else if q == to {
                lookup(s, from)
            } else if q == from {
                None
            } else {
                lookup(s, q)
            },
{
    let t = map_rekey(s, from, to);
    match first_index(s, key_is::<K, V>(from)) {
        Some(i) => {
            let kk = choose|x: int| crate::seq_util::is_first(s, key_is::<K, V>(from), x);
            assert(crate::seq_util::is_first(s, key_is::<K, V>(from), kk));
            assert(s[i].0 == from);
            if first_index(s, key_is::<K, V>(to)) is None {
                let v = s[i].1;
                lemma_lookup_none_means_absent(s, to);
                assert forall|a: int, b: int| 0 <= a < b < t.len() implies #[trigger] t[a].0
                    != #[trigger] t[b].0 by {
                    if a != i {
                        assert(t[a] == s[a]);
                    }
                    if b != i {
                        assert(t[b] == s[b]);
                    }
                }
                assert forall|q: K|
                    #![trigger lookup(t, q)]
                    lookup(t, q) == if lookup(s, from) is None || lookup(s, to) is Some {
                        lookup(s, q)
                    } else if q == to {
                        lookup(s, from)
                    } else if q == from {
                        None
                    } else {
                        lookup(s, q)
                    } by {
                    if q == to {
                        lemma_distinct_lookup(t, i);
                    } else if q == from {
                        assert forall|a: int| 0 <= a < t.len() implies !key_is::<K, V>(q)(
                            #[trigger] t[a],
                        ) by {
                            if a != i {
                                assert(t[a] == s[a]);
                                assert(s[a].0 != s[i].0);
                            }
                        }
                        lemma_first_index_none(t, key_is::<K, V>(q));
                    } else {
                        lemma_first_match_update(s, i, (to, v), key_is::<K, V>(q));
                    }
                }
            }
        },
        None => {},
    }
}

/// A map that keeps its entries in the order in which keys were first inserted.
#[derive(Clone, Debug)]
pub struct VecMap<K, V> {
    pub entries: Vec<(K, V)>,
}

impl<K: Key, V: Copy> VecMap<K, V> {
    /// No key occurs twice.
    pub open spec fn wf(self) -> bool {
        distinct_keys(self.entries@)
    }

    /// The value stored under `k`: that of the first entry with key `k`.
    pub open spec fn spec_get(self, k: K) -> Option<V> {
        lookup(self.entries@, k)
    }

    pub open spec fn spec_contains_key(self, k: K) -> bool {
        self.spec_get(k) is Some
    }

    pub fn new() -> (r: Self)
        ensures
            r.entries@.len() == 0,
            r.wf(),
            forall|k: K| r.spec_get(k) is None,
    {
        let r = VecMap { entries: Vec::new() };
        assert forall|k: K| r.spec_get(k) is None by {
            lemma_first_index_none(r.entries@, key_is::<K, V>(k));
        }
        r
    }

    /// Position of the first entry with key `k`.
    pub fn index_of(&self, k: &K) -> (r: Option<usize>)
        ensures
            r matches Some(i) ==> first_index(self.entries@, key_is::<K, V>(*k)) == Some(i as int)
                && self.entries@[i as int].0 == *k && self.spec_get(*k) == Some(
                self.entries@[i as int].1,
            ),
            r is None ==> first_index(self.entries@, key_is::<K, V>(*k)) is None && self.spec_get(
                *k,
            ) is None,
    {
        let ghost p = key_is::<K, V>(*k);
        let mut i: usize = 0;
        while i < self.entries.len()
            invariant
                i <= self.entries@.len(),
                p == key_is::<K, V>(*k),
                forall|j: int| 0 <= j < i ==> !p(#[trigger] self.entries@[j]),
            decreases self.entries@.len() - i,
        {
            if self.entries[i].0.same(k) {
                proof {
                    lemma_first_index_found(self.entries@, p, i as int);
                }
                return Some(i);
            }
            i = i + 1;
        }
        proof {
            lemma_first_index_none(self.entries@, p);
        }
        None
    }

    pub fn get(&self, k: &K) -> (r: Option<V>)
        ensures
            r == self.spec_get(*k),
    {
        match self.index_of(k) {
            Some(i) => Some(self.entries[i].1),
            None => None,
        }
    }

    pub fn contains_key(&self, k: &K) -> (r: bool)
        ensures
            r == self.spec_contains_key(*k),
    {
        self.index_of(k).is_some()
    }

    /// Stores `v` under `k`, in place of an earlier value, or at the end.
    pub fn insert(&mut self, k: K, v: V)
        ensures
            final(self).entries@ == map_insert(old(self).entries@, k, v),
            old(self).wf() ==> final(self).wf(),
            forall|q: K|
                #![trigger final(self).spec_get(q)]
                final(self).spec_get(q) == if q == k {
                    Some(v)
                } else {
                    old(self).spec_get(q)
                },
    {
        proof {
            lemma_map_insert(self.entries@, k, v);
        }
        match self.index_of(&k) {
            Some(i) => {
                self.entries.set(i, (k, v));
            },
            None => {
                self.entries.push((k, v));
            },
        }
    }

    /// The keys whose value is `v`, in entry order.
    pub fn keys_with(&self, v: &V) -> (r: Vec<K>)
        where V: Key
        ensures
            r@ == keys_with_value(self.entries@, *v),
    {
        let ghost s = self.entries@;
        let mut r: Vec<K> = Vec::new();
        let mut i: usize = 0;
        while i < self.entries.len()
            invariant
                s == self.entries@,
                i <= s.len(),
                r@ == keys_with_value(s.take(i as int), *v),
            decreases s.len() - i,
        {
            let e = self.entries[i];
            proof {
                assert(s.take(i as int + 1).drop_last() == s.take(i as int));
            }
            if e.1.same(v) {
                r.push(e.0);
            }
            i = i + 1;
        }
        proof {
            assert(s.take(s.len() as int) == s);
        }
        r
    }

    /// Moves the value of `old_k` to the new key `new_k`, in the same place in
    /// the order. Nothing happens unless `old_k` has a value and `new_k` has none.
    pub fn rekey(&mut self, old_k: &K, new_k: K) -> (r: bool)
        requires
            old(self).wf(),
        ensures
            final(self).wf(),
            final(self).entries@ == map_rekey(old(self).entries@, *old_k, new_k),
            r == (old(self).spec_get(*old_k) is Some && old(self).spec_get(new_k) is None),
            !r ==> *final(self) == *old(self),
            r ==> forall|q: K|
                #![trigger final(self).spec_get(q)]
                final(self).spec_get(q) == if q == new_k {
                    old(self).spec_get(*old_k)
                } else if q == *old_k {
                    None
                } else {
                    old(self).spec_get(q)
                },
    {
        proof {
            lemma_map_rekey(self.entries@, *old_k, new_k);
        }
        match self.index_of(old_k) {
            Some(i) => {
                if self.contains_key(&new_k) {
                    return false;
                }
                let v = self.entries[i].1;
                self.entries.set(i, (new_k, v));
                true
            },
            None => false,
        }
    }

    /// Drops every entry with key `k`; the others keep their order.
    pub fn remove(&mut self, k: &K)
        ensures
            final(self).entries@ == map_remove(old(self).entries@, *k),
            old(self).wf() ==> final(self).wf(),
            forall|q: K|
                #![trigger final(self).spec_get(q)]
                final(self).spec_get(q) == if q == *k {
                    None
                } else {
                    old(self).spec_get(q)
                },
    {
        let ghost s = self.entries@;
        let ghost keep = key_is_not::<K, V>(*k);
        proof {
            lemma_map_remove(s, *k);
        }
        let mut kept: Vec<(K, V)> = Vec::new();
        let mut i: usize = 0;
        proof {
            assert(s.take(0).filter(keep) =~= kept@) by {
                reveal(Seq::filter);
            }
        }
        while i < self.entries.len()
            invariant
                s == self.entries@,
                i <= s.len(),
                keep == key_is_not::<K, V>(*k),
                kept@ == s.take(i as int).filter(keep),
            decreases s.len() - i,
        {
            let e = self.entries[i];
            proof {
                assert(s.take(i as int + 1) == s.take(i as int).push(e));
                s.take(i as int).lemma_filter_push(e, keep);
            }
            if !e.0.same(k) {
                kept.push(e);
            }
            i = i + 1;
        }
        proof {
            assert(s.take(s.len() as int) == s);
        }
        self.entries = kept;
    }
}

/// Keeping a subsequence keeps keys distinct.
pub proof fn lemma_filter_keeps_distinct_keys<K, V>(s: Seq<(K, V)>, p: spec_fn((K, V)) -> bool)
    requires
        forall|i: int, j: int| 0 <= i < j < s.len() ==> #[trigger] s[i].0 != #[trigger] s[j].0,
    ensures
        forall|i: int, j: int|
            0 <= i < j < s.filter(p).len() ==> #[trigger] s.filter(p)[i].0 != #[trigger] s.filter(
                p,
            )[j].0,
    decreases s.len(),
{
    reveal(Seq::filter);
    if s.len() > 0 {
        let t = s.drop_last();
        assert forall|i: int, j: int| 0 <= i < j < t.len() implies #[trigger] t[i].0 != #[trigger] t[j].0 by {
            assert(t[i] == s[i]);
            assert(t[j] == s[j]);
        }
        lemma_filter_keeps_distinct_keys(t, p);
        let f = t.filter(p);
        if p(s.last()) {
            assert forall|i: int| 0 <= i < f.len() implies #[trigger] f[i].0 != s.last().0 by {
                broadcast use vstd::seq_lib::group_filter_ensures;
                assert(t.filter(p).contains(f[i]));
                t.lemma_filter_contains_rev(p, f[i]);
                let j = choose|j: int| 0 <= j < t.len() && t[j] == f[i];
                assert(s[j] == t[j]);
                assert(s[s.len() - 1] == s.last());
            }
            let g = f.push(s.last());
            assert(s.filter(p) == g);
            assert forall|i: int, j: int| 0 <= i < j < g.len() implies #[trigger] g[i].0 != #[trigger] g[j].0 by {
                if j == f.len() {
                    assert(g[i] == f[i]);
                } else {
                    assert(g[i] == f[i]);
                    assert(g[j] == f[j]);
                }
            }
        }
    }
}

pub open spec fn elem_is_not<K>(k: K) -> spec_fn(K) -> bool {
    |e: K| e != k
}

/// The elements after `k` was added at the end, unless it was there.
pub open spec fn set_insert<K>(s: Seq<K>, k: K) -> Seq<K> {
    if s.contains(k) {
        s
    } else {
        s.push(k)
    }
}

/// The elements other than `k`, in order.
pub open spec fn set_remove<K>(s: Seq<K>, k: K) -> Seq<K> {
    s.filter(elem_is_not(k))
}

/// A set that keeps its elements in insertion order.
#[derive(Clone, Debug)]
pub struct VecSet<K> {
    pub items: Vec<K>,
}

impl<K: Key> VecSet<K> {
    pub open spec fn spec_contains(self, k: K) -> bool {
        self.items@.contains(k)
    }

    pub fn new() -> (r: Self)
        ensures
            r.items@.len() == 0,
    {
        VecSet { items: Vec::new() }
    }

    pub fn contains(&self, k: &K) -> (r: bool)
        ensures
            r == self.spec_contains(*k),
    {
        let mut i: usize = 0;
        while i < self.items.len()
            invariant
                i <= self.items@.len(),
                forall|j: int| 0 <= j < i ==> self.items@[j] != *k,
            decreases self.items@.len() - i,
        {
            if self.items[i].same(k) {
                assert(self.items@[i as int] == *k);
                return true;
            }
            i = i + 1;
        }
        false
    }

    /// Adds `k` at the end unless it is already there.
    pub fn insert(&mut self, k: K)
        ensures
            final(self).items@ == set_insert(old(self).items@, k),
            forall|q: K| #[trigger]
                final(self).spec_contains(q) == (q == k || old(self).spec_contains(q)),
    {
        if !self.contains(&k) {
            self.items.push(k);
            proof {
                assert forall|q: K| #[trigger]
                    self.spec_contains(q) == (q == k || old(self).spec_contains(q)) by {
                    if old(self).spec_contains(q) {
                        let j = choose|j: int| 0 <= j < old(self).items@.len() && old(self).items@[j] == q;
                        assert(self.items@[j] == q);
                    }
                    if self.spec_contains(q) && q != k {
                        let j = choose|j: int| 0 <= j < self.items@.len() && self.items@[j] == q;
                        assert(old(self).items@[j] == q);
                    }
                    assert(self.items@[self.items@.len() - 1] == k);
                }
            }
        }
    }

    /// Drops `k`; the other elements keep their order.
    pub fn remove(&mut self, k: &K)
        ensures
            final(self).items@ == set_remove(old(self).items@, *k),
            forall|q: K| #[trigger]
                final(self).spec_contains(q) == (q != *k && old(self).spec_contains(q)),
    {
        let ghost s = self.items@;
        let ghost keep = elem_is_not(*k);
        let mut kept: Vec<K> = Vec::new();
        let mut i: usize = 0;
        proof {
            assert(s.take(0).filter(keep) =~= kept@) by {
                reveal(Seq::filter);
            }
        }
        while i < self.items.len()
            invariant
                s == self.items@,
                i <= s.len(),
                keep == elem_is_not(*k),
                kept@ == s.take(i as int).filter(keep),
            decreases s.len() - i,
        {
            let e = self.items[i];
            proof {
                assert(s.take(i as int + 1) == s.take(i as int).push(e));
                s.take(i as int).lemma_filter_push(e, keep);
            }
            if !e.same(k) {
                kept.push(e);
            }
            i = i + 1;
        }
        proof {
            assert(s.take(s.len() as int) == s);
        }
        self.items = kept;
        proof {
            broadcast use vstd::seq_lib::group_filter_ensures;
            assert forall|q: K| #[trigger]
                self.spec_contains(q) == (q != *k && old(self).spec_contains(q)) by {
                if self.spec_contains(q) {
                    let j = choose|j: int| 0 <= j < self.items@.len() && self.items@[j] == q;
                    s.lemma_filter_pred(keep, j);
                    s.lemma_filter_contains_rev(keep, q);
                }
                if q != *k && old(self).spec_contains(q) {
                    let j = choose|j: int| 0 <= j < s.len() && s[j] == q;
                    s.lemma_filter_contains(keep, j);
                }
            }
        }
    }

    pub fn clear(&mut self)
        ensures
            final(self).items@.len() == 0,
    {
        self.items = Vec::new();
    }
}

} // verus!
