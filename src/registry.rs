//! The registry's caches: descriptor pools by endpoint address, and
//! connections by id. Both are keyed by exact string equality and live until
//! an entry is replaced or dropped.
use crate::schema::{describes_pool, export_services, ServiceDefinition};
use prost_reflect::DescriptorPool;
use vstd::prelude::*;

verus! {

/// A store of values keyed by strings, each key at most once.
pub struct KeyedStore<V> {
    entries: Vec<(String, V)>,
}

impl<V> View for KeyedStore<V> {
    type V = Map<Seq<char>, V>;

    closed spec fn view(&self) -> Map<Seq<char>, V> {
        Map::new(
            |k: Seq<char>| exists|i: int| 0 <= i < self.entries@.len() && (#[trigger] self.entries@[i]).0@ == k,
            |k: Seq<char>| self.entries@[self.index_of(k)].1,
        )
    }
}

impl<V> KeyedStore<V> {
    spec fn index_of(&self, k: Seq<char>) -> int {
        choose|i: int| 0 <= i < self.entries@.len() && (#[trigger] self.entries@[i]).0@ == k
    }

    /// No key stands twice.
    pub closed spec fn wf(&self) -> bool {
        forall|i: int, j: int|
            0 <= i < self.entries@.len() && 0 <= j < self.entries@.len() && i != j
                ==> (#[trigger] self.entries@[i]).0@ != (#[trigger] self.entries@[j]).0@
    }

    proof fn lemma_index(&self, i: int)
        requires
            self.wf(),
            0 <= i < self.entries@.len(),
        ensures
            self@.contains_key(self.entries@[i].0@),
            self@[self.entries@[i].0@] == self.entries@[i].1,
    {
        let k = self.entries@[i].0@;
        assert(self@.dom().contains(k));
        let c = self.index_of(k);
        assert(0 <= c < self.entries@.len() && self.entries@[c].0@ == k);
    }

    pub fn new() -> (r: Self)
        ensures
            r.wf(),
            r@ == Map::<Seq<char>, V>::empty(),
    {
        let r = KeyedStore { entries: Vec::new() };
        assert(r@ =~= Map::<Seq<char>, V>::empty());
        r
    }

    fn position(&self, key: &str) -> (r: Option<usize>)
        requires
            self.wf(),
        ensures
            match r {
                Some(i) => i < self.entries@.len() && self.entries@[i as int].0@ == key@,
                None => !self@.contains_key(key@),
            },
    {
        let target = key.to_owned();
        let mut i: usize = 0;
        while i < self.entries.len()
            invariant
                i <= self.entries@.len(),
                target@ == key@,
                forall|j: int| 0 <= j < i ==> (#[trigger] self.entries@[j]).0@ != key@,
            decreases self.entries.len() - i,
        {
            if self.entries[i].0 == target {
                return Some(i);
            }
            i += 1;
        }
        None
    }

    /// The value stored under `key`, if any.
    pub fn get(&self, key: &str) -> (r: Option<&V>)
        requires
            self.wf(),
        ensures
            match r {
                Some(v) => self@.contains_key(key@) && *v == self@[key@],
                None => !self@.contains_key(key@),
            },
    {
        match self.position(key) {
            Some(i) => {
                proof {
                    self.lemma_index(i as int);
                }
                Some(&self.entries[i].1)
            },
            None => None,
        }
    }

    /// Stores `value` under `key`, in place of any value stored there.
    pub fn insert(&mut self, key: &str, value: V)
        requires
            old(self).wf(),
        ensures
            final(self).wf(),
            final(self)@ == old(self)@.insert(key@, value),
    {
        let k = key.to_owned();
        let ghost m0 = self@;
        match self.position(key) {
            Some(i) => {
                proof {
                    self.lemma_index(i as int);
                }
                self.entries.set(i, (k, value));
                proof {
                    assert forall|x: Seq<char>| #[trigger] self@.contains_key(x) == m0.insert(key@, value).contains_key(x) by {
                        if x == key@ {
                            assert(self.entries@[i as int].0@ == x);
                        }
                        if m0.contains_key(x) {
                            let c = old(self).index_of(x);
                            if c != i {
                                assert(self.entries@[c].0@ == x);
                            }
                        }
                        if self@.contains_key(x) {
                            let c = self.index_of(x);
                            if c != i {
                                assert(old(self).entries@[c].0@ == x);
                            }
                        }
                    }
                    assert forall|x: Seq<char>| #[trigger] self@.contains_key(x) implies self@[x] == m0.insert(key@, value)[x] by {
                        let c = self.index_of(x);
                        self.lemma_index(c);
                        if x != key@ {
                            old(self).lemma_index(c);
                        }
                    }
                    assert(self@ =~= m0.insert(key@, value));
                }
            },
            None => {
                self.entries.push((k, value));
                proof {
                    let n = self.entries@.len() - 1;
                    assert forall|x: Seq<char>| #[trigger] self@.contains_key(x) == m0.insert(key@, value).contains_key(x) by {
                        if m0.contains_key(x) {
                            let c = old(self).index_of(x);
                            assert(self.entries@[c].0@ == x);
                        }
                        if x == key@ {
                            assert(self.entries@[n].0@ == x);
                        }
                    }
                    assert forall|x: Seq<char>| #[trigger] self@.contains_key(x) implies self@[x] == m0.insert(key@, value)[x] by {
                        let c = self.index_of(x);
                        self.lemma_index(c);
                        if c != n {
                            old(self).lemma_index(c);
                        }
                    }
                    assert(self@ =~= m0.insert(key@, value));
                }
            },
        }
    }

    /// Drops whatever is stored under `key`.
    pub fn remove(&mut self, key: &str)
        requires
            old(self).wf(),
        ensures
            final(self).wf(),
            final(self)@ == old(self)@.remove(key@),
    {
        let ghost m0 = self@;
        match self.position(key) {
            Some(i) => {
                let _ = self.entries.remove(i);
                proof {
                    assert forall|a: int, b: int|
                        0 <= a < self.entries@.len() && 0 <= b < self.entries@.len() && a != b
                            implies (#[trigger] self.entries@[a]).0@ != (#[trigger] self.entries@[b]).0@ by {
                        let a0 = if a < i { a } else { a + 1 };
                        let b0 = if b < i { b } else { b + 1 };
                        assert(self.entries@[a] == old(self).entries@[a0]);
                        assert(self.entries@[b] == old(self).entries@[b0]);
                    }
                    assert forall|x: Seq<char>| #[trigger] self@.contains_key(x) == m0.remove(key@).contains_key(x) by {
                        if m0.contains_key(x) && x != key@ {
                            let c = old(self).index_of(x);
                            if c < i {
                                assert(self.entries@[c].0@ == x);
                            } else {
                                assert(c != i);
                                assert(self.entries@[c - 1].0@ == x);
                            }
                        }
                        if self@.contains_key(x) {
                            let c = self.index_of(x);
                            let c0 = if c < i { c } else { c + 1 };
                            assert(old(self).entries@[c0].0@ == x);
                            assert(c0 != i);
                        }
                    }
                    assert forall|x: Seq<char>| #[trigger] self@.contains_key(x) implies self@[x] == m0.remove(key@)[x] by {
                        let c = self.index_of(x);
                        self.lemma_index(c);
                        let c0 = if c < i { c } else { c + 1 };
                        assert(self.entries@[c] == old(self).entries@[c0]);
                        old(self).lemma_index(c0);
                    }
                    assert(self@ =~= m0.remove(key@));
                }
            },
            None => {
                assert(self@ =~= m0.remove(key@));
            },
        }
    }
}

/// The first half of `reflect(uri)`: the services of the pool cached for
/// `uri`, or `None` where none is cached and the pool must be fetched.
pub fn reflect_cached(pools: &KeyedStore<DescriptorPool>, uri: &str) -> (r: Option<Vec<ServiceDefinition>>)
    requires
        pools.wf(),
    ensures
        r is Some <==> pools@.contains_key(uri@),
        r matches Some(defs) ==> describes_pool(defs@, pools@[uri@]),
{
    match pools.get(uri) {
        Some(pool) => Some(export_services(pool)),
        None => None,
    }
}

/// The second half of `reflect(uri)`, once a pool was fetched: caches it for
/// `uri` and describes its services.
pub fn reflect_fetched(pools: &mut KeyedStore<DescriptorPool>, uri: &str, fetched: DescriptorPool) -> (r: Vec<ServiceDefinition>)
    requires
        old(pools).wf(),
    ensures
        final(pools).wf(),
        final(pools)@ == old(pools)@.insert(uri@, fetched),
        describes_pool(r@, fetched),
{
    let defs = export_services(&fetched);
    pools.insert(uri, fetched);
    defs
}

/// The first step of `invalidate_and_reflect(uri)`: drops the cached pool, so
/// that the reflect that follows fetches afresh.
pub fn invalidate(pools: &mut KeyedStore<DescriptorPool>, uri: &str)
    requires
        old(pools).wf(),
    ensures
        final(pools).wf(),
        final(pools)@ == old(pools)@.remove(uri@),
        !final(pools)@.contains_key(uri@),
{
    pools.remove(uri);
}

/// The cache after `reflect(uri)`: a cached entry is kept, and otherwise
/// what the fetch brought (`fetched`) is stored.
pub open spec fn after_reflect<V>(m: Map<Seq<char>, V>, uri: Seq<char>, fetched: V) -> Map<Seq<char>, V> {
    if m.contains_key(uri) {
        m
    } else {
        m.insert(uri, fetched)
    }
}

/// The pool that `reflect(uri)` describes: the cached one if there is one,
/// else the one fetched.
pub open spec fn reflected<V>(m: Map<Seq<char>, V>, uri: Seq<char>, fetched: V) -> V {
    if m.contains_key(uri) {
        m[uri]
    } else {
        fetched
    }
}

/// The cache after `invalidate_and_reflect(uri)`.
pub open spec fn after_invalidate_and_reflect<V>(m: Map<Seq<char>, V>, uri: Seq<char>, fetched: V) -> Map<Seq<char>, V> {
    after_reflect(m.remove(uri), uri, fetched)
}

/// Invalidating and reflecting an address always uses a fresh fetch, even
/// where a pool was cached for it; a later `reflect` of the same address
/// then returns what that fetch stored, whatever a new fetch would bring.
pub proof fn lemma_invalidate_then_reflect<V>(m: Map<Seq<char>, V>, uri: Seq<char>, fresh: V, later: V)
    ensures
        !m.remove(uri).contains_key(uri),
        reflected(m.remove(uri), uri, fresh) == fresh,
        after_invalidate_and_reflect(m, uri, fresh)[uri] == fresh,
        reflected(after_invalidate_and_reflect(m, uri, fresh), uri, later) == fresh,
        after_reflect(after_invalidate_and_reflect(m, uri, fresh), uri, later) == after_invalidate_and_reflect(m, uri, fresh),
{
}

} // verus!
