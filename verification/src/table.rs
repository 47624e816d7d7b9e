//! A finite map held as a list of entries with distinct keys.

use vstd::prelude::*;

use crate::model::{Key, Stored};

verus! {

/// Maps keys to values. Lookup is a scan over the entries, in the order in
/// which their keys first came in.
#[verifier::reject_recursive_types(K)]
pub struct Table<K: Key, V: Stored> {
    entries: Vec<(K, V)>,
}

/// Entry `i` of `s` is the one for key `k`.
pub open spec fn holds_at<K: Key, V: Stored>(s: Seq<(K, V)>, k: K::M, i: int) -> bool {
    0 <= i < s.len() && s[i].0.model() == k
}

/// The map that a list of entries stands for.
pub open spec fn map_of<K: Key, V: Stored>(s: Seq<(K, V)>) -> Map<K::M, V::M> {
    Map::new(
        |k: K::M| exists|i: int| holds_at(s, k, i),
        |k: K::M| s[choose|i: int| holds_at(s, k, i)].1.model(),
    )
}

/// The part of a map whose entries `p` holds of.
pub open spec fn kept<K, V>(m: Map<K, V>, p: spec_fn(K, V) -> bool) -> Map<K, V> {
    Map::new(|k: K| m.contains_key(k) && p(k, m[k]), |k: K| m[k])
}

/// No key stands in two entries.
pub open spec fn distinct_keys<K: Key, V: Stored>(s: Seq<(K, V)>) -> bool {
    forall|i: int, j: int|
        #![trigger s[i], s[j]]
        0 <= i < s.len() && 0 <= j < s.len() && s[i].0.model() == s[j].0.model() ==> i == j
}

proof fn lemma_at<K: Key, V: Stored>(s: Seq<(K, V)>, i: int)
    requires
        distinct_keys(s),
        0 <= i < s.len(),
    ensures
        map_of(s).contains_key(s[i].0.model()),
        map_of(s)[s[i].0.model()] == s[i].1.model(),
{
    let k = s[i].0.model();
    assert(holds_at(s, k, i));
    let j = choose|j: int| holds_at(s, k, j);
    assert(holds_at(s, k, j));
    assert(s[i].0.model() == s[j].0.model());
}

proof fn lemma_update<K: Key, V: Stored>(s: Seq<(K, V)>, i: int, e: (K, V))
    requires
        distinct_keys(s),
        0 <= i < s.len(),
        e.0.model() == s[i].0.model(),
    ensures
        distinct_keys(s.update(i, e)),
        map_of(s.update(i, e)) == map_of(s).insert(e.0.model(), e.1.model()),
{
    let t = s.update(i, e);
    assert(distinct_keys(t)) by {
        assert forall|a: int, b: int|
            #![trigger t[a], t[b]]
            0 <= a < t.len() && 0 <= b < t.len() && t[a].0.model() == t[b].0.model() implies a == b by {
            assert(s[a].0.model() == s[b].0.model());
        }
    }
    assert forall|k: K::M| map_of(t).contains_key(k) == map_of(s).insert(e.0.model(), e.1.model()).contains_key(
        k,
    ) by {
        if map_of(t).contains_key(k) {
            let a = choose|a: int| holds_at(t, k, a);
            lemma_at(s, a);
        }
        if map_of(s).contains_key(k) {
            let a = choose|a: int| holds_at(s, k, a);
            lemma_at(t, a);
        }
        lemma_at(t, i);
    }
    assert forall|k: K::M| map_of(t).contains_key(k) implies #[trigger] map_of(t)[k] == map_of(s).insert(
        e.0.model(),
        e.1.model(),
    )[k] by {
        let a = choose|a: int| holds_at(t, k, a);
        lemma_at(t, a);
        lemma_at(s, a);
        lemma_at(t, i);
    }
    assert(map_of(t) =~= map_of(s).insert(e.0.model(), e.1.model()));
}

proof fn lemma_push<K: Key, V: Stored>(s: Seq<(K, V)>, e: (K, V))
    requires
        distinct_keys(s),
        !map_of(s).contains_key(e.0.model()),
    ensures
        distinct_keys(s.push(e)),
        map_of(s.push(e)) == map_of(s).insert(e.0.model(), e.1.model()),
{
    let t = s.push(e);
    assert(distinct_keys(t)) by {
        assert forall|a: int, b: int|
            #![trigger t[a], t[b]]
            0 <= a < t.len() && 0 <= b < t.len() && t[a].0.model() == t[b].0.model() implies a == b by {
            if a < s.len() {
                lemma_at(s, a);
            }
            if b < s.len() {
                lemma_at(s, b);
            }
            if a < s.len() && b < s.len() {
                assert(s[a].0.model() == s[b].0.model());
            }
        }
    }
    lemma_at(t, s.len() as int);
    assert forall|k: K::M| map_of(t).contains_key(k) == map_of(s).insert(e.0.model(), e.1.model()).contains_key(
        k,
    ) by {
        if map_of(t).contains_key(k) {
            let a = choose|a: int| holds_at(t, k, a);
            if a < s.len() {
                lemma_at(s, a);
            }
        }
        if map_of(s).contains_key(k) {
            let a = choose|a: int| holds_at(s, k, a);
            lemma_at(t, a);
        }
    }
    assert forall|k: K::M| map_of(t).contains_key(k) implies #[trigger] map_of(t)[k] == map_of(s).insert(
        e.0.model(),
        e.1.model(),
    )[k] by {
        let a = choose|a: int| holds_at(t, k, a);
        lemma_at(t, a);
        if a < s.len() {
            lemma_at(s, a);
        }
    }
    assert(map_of(t) =~= map_of(s).insert(e.0.model(), e.1.model()));
}

proof fn lemma_remove<K: Key, V: Stored>(s: Seq<(K, V)>, i: int)
    requires
        distinct_keys(s),
        0 <= i < s.len(),
    ensures
        distinct_keys(s.remove(i)),
        map_of(s.remove(i)) == map_of(s).remove(s[i].0.model()),
{
    let t = s.remove(i);
    let gone = s[i].0.model();
    assert forall|a: int| 0 <= a < t.len() implies #[trigger] t[a] == s[if a < i {
        a
    } else {
        a + 1
    }] by {}
    assert(distinct_keys(t)) by {
        assert forall|a: int, b: int|
            #![trigger t[a], t[b]]
            0 <= a < t.len() && 0 <= b < t.len() && t[a].0.model() == t[b].0.model() implies a == b by {
            let a2 = if a < i { a } else { a + 1 };
            let b2 = if b < i { b } else { b + 1 };
            assert(s[a2].0.model() == s[b2].0.model());
        }
    }
    assert forall|k: K::M| map_of(t).contains_key(k) == map_of(s).remove(gone).contains_key(k) by {
        if map_of(t).contains_key(k) {
            let a = choose|a: int| holds_at(t, k, a);
            let a2 = if a < i { a } else { a + 1 };
            lemma_at(s, a2);
            if k == gone {
                assert(s[a2].0.model() == s[i].0.model());
            }
        }
        if map_of(s).remove(gone).contains_key(k) {
            let a = choose|a: int| holds_at(s, k, a);
            assert(holds_at(s, k, a));
            assert(a != i);
            lemma_at(t, if a < i { a } else { a - 1 });
        }
    }
    assert forall|k: K::M| map_of(t).contains_key(k) implies #[trigger] map_of(t)[k] == map_of(s).remove(gone)[k] by {
        let a = choose|a: int| holds_at(t, k, a);
        lemma_at(t, a);
        lemma_at(s, if a < i { a } else { a + 1 });
    }
    assert(map_of(t) =~= map_of(s).remove(gone));
}

proof fn lemma_len<K: Key, V: Stored>(s: Seq<(K, V)>)
    requires
        distinct_keys(s),
    ensures
        map_of(s).dom().finite(),
        map_of(s).len() == s.len(),
    decreases s.len(),
{
    if s.len() == 0 {
        assert(map_of(s) =~= Map::<K::M, V::M>::empty());
    } else {
        let i = s.len() - 1;
        let t = s.remove(i);
        lemma_remove(s, i);
        lemma_len(t);
        lemma_at(s, i);
        let k = s[i].0.model();
        assert(map_of(t).dom() =~= map_of(s).dom().remove(k));
        assert(map_of(s).dom() =~= map_of(t).dom().insert(k));
    }
}

impl<K: Key, V: Stored> Table<K, V> {
    /// The map that the table stands for.
    pub closed spec fn view(&self) -> Map<K::M, V::M> {
        map_of(self.entries@)
    }

    /// No key stands in two entries, and every value is sound.
    pub closed spec fn wf(&self) -> bool {
        &&& distinct_keys(self.entries@)
        &&& forall|i: int| 0 <= i < self.entries@.len() ==> (#[trigger] self.entries@[i]).1.sound()
    }

    /// The entries as a sequence, for walking the table.
    pub closed spec fn keys(&self) -> Seq<K::M> {
        Seq::new(self.entries@.len(), |i: int| self.entries@[i].0.model())
    }

    pub fn new() -> (t: Self)
        ensures
            t.wf(),
            t@ == Map::<K::M, V::M>::empty(),
    {
        let t = Table { entries: Vec::new() };
        assert(t@ =~= Map::<K::M, V::M>::empty());
        t
    }

    pub fn len(&self) -> (n: usize)
        requires
            self.wf(),
        ensures
            self@.dom().finite(),
            n == self@.len(),
            n == self.keys().len(),
    {
        proof {
            lemma_len(self.entries@);
        }
        self.entries.len()
    }

    pub fn is_empty(&self) -> (b: bool)
        requires
            self.wf(),
        ensures
            b == (self@ == Map::<K::M, V::M>::empty()),
    {
        proof {
            lemma_len(self.entries@);
            if self.entries@.len() == 0 {
                assert(self@ =~= Map::<K::M, V::M>::empty());
            }
        }
        self.entries.len() == 0
    }

    /// The position of `k`'s entry.
    fn find(&self, k: &K) -> (r: Option<usize>)
        requires
            self.wf(),
        ensures
            match r {
                Some(i) => {
                    &&& i < self.entries@.len()
                    &&& self.entries@[i as int].0.model() == k.model()
                    &&& self@.contains_key(k.model())
                    &&& self@[k.model()] == self.entries@[i as int].1.model()
                },
                None => !self@.contains_key(k.model()),
            },
    {
        let mut i: usize = 0;
        while i < self.entries.len()
            invariant
                i <= self.entries@.len(),
                self.wf(),
                forall|j: int| 0 <= j < i ==> (#[trigger] self.entries@[j]).0.model() != k.model(),
            decreases self.entries@.len() - i,
        {
            if self.entries[i].0.same(k) {
                proof {
                    lemma_at(self.entries@, i as int);
                }
                return Some(i);
            }
            i += 1;
        }
        None
    }

    pub fn contains_key(&self, k: &K) -> (b: bool)
        requires
            self.wf(),
        ensures
            b == self@.contains_key(k.model()),
    {
        self.find(k).is_some()
    }

    pub fn get(&self, k: &K) -> (r: Option<&V>)
        requires
            self.wf(),
        ensures
            match r {
                Some(v) => self@.contains_key(k.model()) && v.model() == self@[k.model()] && v.sound(),
                None => !self@.contains_key(k.model()),
            },
    {
        match self.find(k) {
            Some(i) => Some(&self.entries[i].1),
            None => None,
        }
    }

    /// A borrow of the value under `k`, through which it can be changed.
    pub fn get_mut(&mut self, k: &K) -> (r: Option<&mut V>)
        requires
            old(self).wf(),
        ensures
            match r {
                Some(v) => {
                    &&& old(self)@.contains_key(k.model())
                    &&& v.model() == old(self)@[k.model()]
                    &&& v.sound()
                    &&& final(self)@ == old(self)@.insert(k.model(), (*final(v)).model())
                    &&& (*final(v)).sound() ==> final(self).wf()
                },
                None => !old(self)@.contains_key(k.model()) && *final(self) == *old(self),
            },
    {
        match self.find(k) {
            None => None,
            Some(i) => {
                let ghost s = self.entries@;
                proof {
                    assert forall|e: (K, V)| e.0 == s[i as int].0 implies {
                        &&& distinct_keys(#[trigger] s.update(i as int, e))
                        &&& map_of(s.update(i as int, e)) == map_of(s).insert(k.model(), e.1.model())
                    } by {
                        lemma_update(s, i as int, e);
                    }
                }
                Some(&mut self.entries[i].1)
            },
        }
    }

    pub fn insert(&mut self, k: K, v: V)
        requires
            old(self).wf(),
            v.sound(),
        ensures
            final(self).wf(),
            final(self)@ == old(self)@.insert(k.model(), v.model()),
    {
        match self.find(&k) {
            None => {
                proof {
                    lemma_push(self.entries@, (k, v));
                }
                self.entries.push((k, v));
            },
            Some(i) => {
                proof {
                    lemma_update(self.entries@, i as int, (k, v));
                }
                self.entries[i] = (k, v);
            },
        }
    }

    pub fn remove(&mut self, k: &K) -> (r: Option<V>)
        requires
            old(self).wf(),
        ensures
            final(self).wf(),
            final(self)@ == old(self)@.remove(k.model()),
            match r {
                Some(v) => old(self)@.contains_key(k.model()) && v.model() == old(self)@[k.model()] && v.sound(),
                None => !old(self)@.contains_key(k.model()),
            },
    {
        match self.find(k) {
            None => {
                assert(self@ =~= self@.remove(k.model()));
                None
            },
            Some(i) => {
                proof {
                    lemma_remove(self.entries@, i as int);
                }
                let e = self.entries.remove(i);
                Some(e.1)
            },
        }
    }

    /// The key at position `i` of the walk.
    pub fn key_at(&self, i: usize) -> (k: &K)
        requires
            self.wf(),
            i < self.keys().len(),
        ensures
            k.model() == self.keys()[i as int],
            self@.contains_key(k.model()),
    {
        proof {
            lemma_at(self.entries@, i as int);
        }
        &self.entries[i].0
    }

    /// The value at position `i` of the walk.
    pub fn value_at(&self, i: usize) -> (v: &V)
        requires
            self.wf(),
            i < self.keys().len(),
        ensures
            self@.contains_key(self.keys()[i as int]),
            v.model() == self@[self.keys()[i as int]],
            v.sound(),
    {
        proof {
            lemma_at(self.entries@, i as int);
        }
        &self.entries[i].1
    }

    /// The walk meets every key, each once.
    pub proof fn walk_is_complete(&self)
        requires
            self.wf(),
        ensures
            forall|k: K::M| self@.contains_key(k) ==> exists|i: int| 0 <= i < self.keys().len() && self.keys()[i] == k,
            forall|i: int| 0 <= i < self.keys().len() ==> self@.contains_key(#[trigger] self.keys()[i]),
            self.keys().no_duplicates(),
    {
        assert forall|k: K::M| self@.contains_key(k) implies exists|i: int|
            0 <= i < self.keys().len() && self.keys()[i] == k by {
            let i = choose|i: int| holds_at(self.entries@, k, i);
            assert(self.keys()[i] == k);
        }
        assert forall|i: int| 0 <= i < self.keys().len() implies self@.contains_key(#[trigger] self.keys()[i]) by {
            lemma_at(self.entries@, i);
        }
        assert forall|i: int, j: int|
            0 <= i < self.keys().len() && 0 <= j < self.keys().len() && i != j implies self.keys()[i]
            != self.keys()[j] by {
            assert(self.entries@[i].0.model() == self.keys()[i]);
            assert(self.entries@[j].0.model() == self.keys()[j]);
        }
    }

    /// Keep exactly the entries for which `keep` answers true; `p` is what
    /// `keep` decides.
    pub(crate) fn retain<F: Fn(&K, &V) -> bool>(&mut self, keep: F, Ghost(p): Ghost<spec_fn(K::M, V::M) -> bool>)
        requires
            old(self).wf(),
            forall|k: &K, v: &V| #[trigger] call_requires(keep, (k, v)),
            forall|k: &K, v: &V, b: bool|
                #[trigger] call_ensures(keep, (k, v), b) ==> b == p(k.model(), v.model()),
        ensures
            final(self).wf(),
            final(self)@ == kept(old(self)@, p),
    {
        let ghost before = self@;
        let mut i: usize = 0;
        while i < self.entries.len()
            invariant
                i <= self.entries@.len(),
                self.wf(),
                forall|k: &K, v: &V| #[trigger] call_requires(keep, (k, v)),
                forall|k: &K, v: &V, b: bool|
                    #[trigger] call_ensures(keep, (k, v), b) ==> b == p(k.model(), v.model()),
                forall|j: int|
                    0 <= j < i ==> p((#[trigger] self.entries@[j]).0.model(), self.entries@[j].1.model()),
                forall|k: K::M| #[trigger]
                    self@.contains_key(k) ==> before.contains_key(k) && before[k] == self@[k],
                forall|k: K::M| #[trigger]
                    before.contains_key(k) && !self@.contains_key(k) ==> !p(k, before[k]),
            decreases self.entries@.len() - i,
        {
            let e = &self.entries[i];
            let ghost k = e.0.model();
            let ghost s = self.entries@;
            proof {
                lemma_at(s, i as int);
            }
            if keep(&e.0, &e.1) {
                i += 1;
            } else {
                proof {
                    lemma_remove(s, i as int);
                    assert(self@.contains_key(k));
                    assert(before.contains_key(k));
                }
                self.entries.remove(i);
                assert(self@ == map_of(s).remove(k));
                assert forall|j: int| 0 <= j < i implies p(
                    (#[trigger] self.entries@[j]).0.model(),
                    self.entries@[j].1.model(),
                ) by {
                    assert(self.entries@[j] == s[j]);
                }
            }
        }
        assert forall|k: K::M| self@.contains_key(k) implies p(k, before[k]) by {
            let j = choose|j: int| holds_at(self.entries@, k, j);
            assert(holds_at(self.entries@, k, j));
            lemma_at(self.entries@, j);
        }
        assert(self@ =~= kept(before, p));
    }
}

} // verus!
