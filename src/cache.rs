//! The register cache: bytes read from the device, keyed by node, address
//! and length, with the invalidation links between nodes.
use vstd::prelude::*;

use crate::store::NodeId;

verus! {

/// Node, address and length of a cached register read.
pub type CacheKey = (NodeId, i64, i64);

/// Where register reads are cached, and which nodes' caches a change of a
/// node invalidates.
pub trait CacheStore {
    /// The bytes cached under `key`, if any.
    spec fn cached(&self, key: CacheKey) -> Option<Seq<u8>>;

    /// A change of node `by` invalidates the cache of node `target`.
    spec fn invalidates(&self, by: NodeId, target: NodeId) -> bool;

    /// The store keeps what it is given (a sink keeps nothing).
    spec fn retains(&self) -> bool;

    fn cache(&mut self, nid: NodeId, address: i64, length: i64, data: &[u8])
        ensures
            final(self).retains() == old(self).retains(),
            forall|a: NodeId, b: NodeId| #[trigger]
                final(self).invalidates(a, b) == old(self).invalidates(a, b),
            forall|k: CacheKey| #[trigger]
                final(self).cached(k) == if k == (nid, address, length) && old(self).retains() {
                    Some(data@)
                } else {
                    old(self).cached(k)
                },
    ;

    fn get_cache(&self, nid: NodeId, address: i64, length: i64) -> (r: Option<&[u8]>)
        ensures
            r matches Some(d) ==> self.cached((nid, address, length)) == Some(d@),
            r is None ==> self.cached((nid, address, length)) is None,
    ;

    /// Clears the cache of every node that a change of `nid` invalidates.
    fn invalidate_by(&mut self, nid: NodeId)
        ensures
            final(self).retains() == old(self).retains(),
            forall|a: NodeId, b: NodeId| #[trigger]
                final(self).invalidates(a, b) == old(self).invalidates(a, b),
            forall|k: CacheKey| #[trigger]
                final(self).cached(k) == if old(self).invalidates(nid, k.0) {
                    None
                } else {
                    old(self).cached(k)
                },
    ;

    /// Clears the cache of `nid` itself.
    fn invalidate_of(&mut self, nid: NodeId)
        ensures
            final(self).retains() == old(self).retains(),
            forall|a: NodeId, b: NodeId| #[trigger]
                final(self).invalidates(a, b) == old(self).invalidates(a, b),
            forall|k: CacheKey| #[trigger]
                final(self).cached(k) == if k.0 == nid {
                    None
                } else {
                    old(self).cached(k)
                },
    ;

    fn clear(&mut self)
        ensures
            final(self).retains() == old(self).retains(),
            forall|a: NodeId, b: NodeId| #[trigger]
                final(self).invalidates(a, b) == old(self).invalidates(a, b),
            forall|k: CacheKey| #[trigger] final(self).cached(k) is None,
    ;
}

/// The first bytes recorded under `k` in `s`.
pub open spec fn lookup(s: Seq<(CacheKey, Seq<u8>)>, k: CacheKey) -> Option<Seq<u8>>
    decreases s.len(),
{
    if s.len() == 0 {
        None
    } else if s[0].0 == k {
        Some(s[0].1)
    } else {
        lookup(s.drop_first(), k)
    }
}

/// Whether a removal of node `nid` (of one address range of it, if `range`
/// is given) removes the entry under `k`.
pub open spec fn removes(k: CacheKey, nid: NodeId, range: Option<(i64, i64)>) -> bool {
    k.0 == nid && match range {
        Some(r) => k.1 == r.0 && k.2 == r.1,
        None => true,
    }
}

/// `s` without the entries that the removal takes out, in order.
pub open spec fn without(s: Seq<(CacheKey, Seq<u8>)>, nid: NodeId, range: Option<(i64, i64)>) -> Seq<
    (CacheKey, Seq<u8>),
>
    decreases s.len(),
{
    if s.len() == 0 {
        s
    } else {
        let p = without(s.drop_last(), nid, range);
        if removes(s.last().0, nid, range) {
            p
        } else {
            p.push(s.last())
        }
    }
}

proof fn lemma_lookup_push(s: Seq<(CacheKey, Seq<u8>)>, x: (CacheKey, Seq<u8>), k: CacheKey)
    ensures
        lookup(s.push(x), k) == if lookup(s, k) is Some {
            lookup(s, k)
        } else if x.0 == k {
            Some(x.1)
        } else {
            None
        },
    decreases s.len(),
{
    if s.len() > 0 {
        assert(s.push(x)[0] == s[0]);
        assert(s.push(x).drop_first() =~= s.drop_first().push(x));
        lemma_lookup_push(s.drop_first(), x, k);
    } else {
        assert(s.push(x)[0] == x);
        assert(lookup(s.push(x).drop_first(), k) is None);
    }
}

proof fn lemma_lookup_without(s: Seq<(CacheKey, Seq<u8>)>, nid: NodeId, range: Option<(i64, i64)>, k: CacheKey)
    ensures
        lookup(without(s, nid, range), k) == if removes(k, nid, range) {
            None
        } else {
            lookup(s, k)
        },
    decreases s.len(),
{
    if s.len() > 0 {
        let p = s.drop_last();
        lemma_lookup_without(p, nid, range, k);
        assert(p.push(s.last()) =~= s);
        lemma_lookup_push(p, s.last(), k);
        if !removes(s.last().0, nid, range) {
            lemma_lookup_push(without(p, nid, range), s.last(), k);
        }
    }
}

fn copy_bytes(data: &[u8]) -> (r: Vec<u8>)
    ensures
        r@ == data@,
{
    let mut r: Vec<u8> = Vec::new();
    let mut i: usize = 0;
    while i < data.len()
        invariant
            i <= data@.len(),
            r@ == data@.subrange(0, i as int),
        decreases data@.len() - i,
    {
        r.push(data[i]);
        i = i + 1;
        assert(r@ =~= data@.subrange(0, i as int));
    }
    assert(data@.subrange(0, i as int) =~= data@);
    r
}

/// One cached register read.
#[derive(Debug)]
pub struct CacheEntry {
    pub nid: NodeId,
    pub address: i64,
    pub length: i64,
    pub data: Vec<u8>,
}

impl CacheEntry {
    pub open spec fn view(&self) -> (CacheKey, Seq<u8>) {
        ((self.nid, self.address, self.length), self.data@)
    }
}

/// The cache that keeps every register read until it is invalidated.
#[derive(Debug)]
pub struct DefaultCacheStore {
    store: Vec<CacheEntry>,
    invalidators: Vec<(NodeId, NodeId)>,
}

impl DefaultCacheStore {
    pub closed spec fn entries(&self) -> Seq<(CacheKey, Seq<u8>)> {
        self.store@.map_values(|e: CacheEntry| e.view())
    }

    pub closed spec fn links(&self) -> Seq<(NodeId, NodeId)> {
        self.invalidators@
    }

    pub fn new() -> (r: DefaultCacheStore)
        ensures
            forall|k: CacheKey| #[trigger] r.cached(k) is None,
            forall|a: NodeId, b: NodeId| !#[trigger] r.invalidates(a, b),
    {
        DefaultCacheStore { store: Vec::new(), invalidators: Vec::new() }
    }

    /// Records that a change of `invalidator` invalidates the cache of `target`.
    pub fn store_invalidator(&mut self, invalidator: NodeId, target: NodeId)
        ensures
            forall|k: CacheKey| #[trigger] final(self).cached(k) == old(self).cached(k),
            forall|a: NodeId, b: NodeId| #[trigger]
                final(self).invalidates(a, b) == (old(self).invalidates(a, b) || (a == invalidator
                    && b == target)),
    {
        self.invalidators.push((invalidator, target));
        proof {
            assert forall|a: NodeId, b: NodeId| #[trigger]
                self.invalidates(a, b) == (old(self).invalidates(a, b) || (a == invalidator && b
                    == target)) by {
                if old(self).invalidates(a, b) {
                    let i = choose|i: int|
                        0 <= i < old(self).links().len() && old(self).links()[i] == (a, b);
                    assert(self.links()[i] == (a, b));
                }
                if a == invalidator && b == target {
                    assert(self.links()[old(self).links().len() as int] == (a, b));
                }
                if self.invalidates(a, b) && !(a == invalidator && b == target) {
                    let i = choose|i: int| 0 <= i < self.links().len() && self.links()[i] == (a, b);
                    assert(old(self).links()[i] == (a, b));
                }
            }
        }
    }

    /// Removes the entries of `nid` (of one address range of it, if given).
    fn remove_entries(&mut self, nid: NodeId, range: Option<(i64, i64)>)
        ensures
            final(self).entries() == without(old(self).entries(), nid, range),
            final(self).links() == old(self).links(),
    {
        let mut kept: Vec<CacheEntry> = Vec::new();
        let mut i: usize = 0;
        while i < self.store.len()
            invariant
                self.store@ == old(self).store@,
                self.invalidators@ == old(self).invalidators@,
                i <= self.store@.len(),
                kept@.map_values(|e: CacheEntry| e.view()) == without(
                    self.entries().subrange(0, i as int),
                    nid,
                    range,
                ),
            decreases self.store@.len() - i,
        {
            let e = &self.store[i];
            let hit = e.nid.0 == nid.0 && match range {
                Some(r) => e.address == r.0 && e.length == r.1,
                None => true,
            };
            let ghost pre = self.entries().subrange(0, i + 1);
            assert(pre.drop_last() =~= self.entries().subrange(0, i as int));
            if !hit {
                let data = e.data.clone();
                assert(data@ =~= e.data@);
                kept.push(CacheEntry { nid: e.nid, address: e.address, length: e.length, data });
                assert(kept@.map_values(|e: CacheEntry| e.view()) =~= without(pre, nid, range));
            }
            i = i + 1;
        }
        assert(self.entries().subrange(0, i as int) =~= self.entries());
        self.store = kept;
    }
}

impl CacheStore for DefaultCacheStore {
    open spec fn cached(&self, key: CacheKey) -> Option<Seq<u8>> {
        lookup(self.entries(), key)
    }

    open spec fn invalidates(&self, by: NodeId, target: NodeId) -> bool {
        self.links().contains((by, target))
    }

    open spec fn retains(&self) -> bool {
        true
    }

    fn cache(&mut self, nid: NodeId, address: i64, length: i64, data: &[u8]) {
        self.remove_entries(nid, Some((address, length)));
        let ghost mid = self.entries();
        let owned = copy_bytes(data);
        self.store.push(CacheEntry { nid, address, length, data: owned });
        proof {
            assert(self.entries() =~= mid.push(((nid, address, length), data@)));
            assert forall|k: CacheKey| #[trigger]
                self.cached(k) == if k == (nid, address, length) {
                    Some(data@)
                } else {
                    old(self).cached(k)
                } by {
                lemma_lookup_without(old(self).entries(), nid, Some((address, length)), k);
                lemma_lookup_push(mid, ((nid, address, length), data@), k);
            }
        }
    }

    fn get_cache(&self, nid: NodeId, address: i64, length: i64) -> (r: Option<&[u8]>) {
        let mut i: usize = 0;
        let ghost k = (nid, address, length);
        assert(self.entries().subrange(0, self.entries().len() as int) =~= self.entries());
        while i < self.store.len()
            invariant
                k == (nid, address, length),
                i <= self.store@.len(),
                lookup(self.entries(), k) == lookup(
                    self.entries().subrange(i as int, self.entries().len() as int),
                    k,
                ),
            decreases self.store@.len() - i,
        {
            let e = &self.store[i];
            let ghost rest = self.entries().subrange(i as int, self.entries().len() as int);
            assert(rest[0] == e.view());
            if e.nid.0 == nid.0 && e.address == address && e.length == length {
                let d = e.data.as_slice();
                assert(d@ == e.data@);
                return Some(d);
            }
            assert(rest[0].0 != k);
            assert(rest.drop_first() =~= self.entries().subrange(
                i + 1,
                self.entries().len() as int,
            ));
            i = i + 1;
        }
        None
    }

    fn invalidate_by(&mut self, nid: NodeId) {
        let mut i: usize = 0;
        while i < self.invalidators.len()
            invariant
                self.invalidators@ == old(self).invalidators@,
                i <= self.invalidators@.len(),
                forall|k: CacheKey| #[trigger]
                    self.cached(k) == if exists|j: int|
                        0 <= j < i && self.links()[j] == (nid, k.0) {
                        None
                    } else {
                        old(self).cached(k)
                    },
            decreases self.invalidators@.len() - i,
        {
            let (by, target) = self.invalidators[i];
            if by.0 == nid.0 {
                let ghost before = *self;
                self.remove_entries(target, None);
                proof {
                    assert(self.links() == before.links());
                    assert forall|k: CacheKey| #[trigger]
                        self.cached(k) == if exists|j: int|
                            0 <= j < i + 1 && self.links()[j] == (nid, k.0) {
                            None
                        } else {
                            old(self).cached(k)
                        } by {
                        lemma_lookup_without(before.entries(), target, None, k);
                        assert(before.cached(k) == lookup(before.entries(), k));
                        if k.0 == target {
                            assert(self.links()[i as int] == (nid, k.0));
                        }
                    }
                }
            }
            i = i + 1;
        }
        proof {
            assert forall|k: CacheKey| #[trigger]
                self.cached(k) == if old(self).invalidates(nid, k.0) {
                    None
                } else {
                    old(self).cached(k)
                } by {
                if old(self).invalidates(nid, k.0) {
                    let j = choose|j: int|
                        0 <= j < old(self).links().len() && old(self).links()[j] == (nid, k.0);
                    assert(self.links()[j] == (nid, k.0));
                }
            }
        }
    }

    fn invalidate_of(&mut self, nid: NodeId) {
        self.remove_entries(nid, None);
        proof {
            assert forall|k: CacheKey| #[trigger]
                self.cached(k) == if k.0 == nid {
                    None
                } else {
                    old(self).cached(k)
                } by {
                lemma_lookup_without(old(self).entries(), nid, None, k);
            }
        }
    }

    fn clear(&mut self) {
        self.store = Vec::new();
        assert(self.entries() =~= Seq::<(CacheKey, Seq<u8>)>::empty());
    }
}

/// The cache that keeps nothing: every read goes to the device.
#[derive(Debug, Clone, Copy)]
pub struct CacheSink {}

impl CacheSink {
    pub fn new() -> (r: CacheSink)
        ensures
            !r.retains(),
    {
        CacheSink {}
    }

    /// Keeps no invalidation link either.
    pub fn store_invalidator(&mut self, invalidator: NodeId, target: NodeId) {
    }
}

impl CacheStore for CacheSink {
    open spec fn cached(&self, key: CacheKey) -> Option<Seq<u8>> {
        None
    }

    open spec fn invalidates(&self, by: NodeId, target: NodeId) -> bool {
        false
    }

    open spec fn retains(&self) -> bool {
        false
    }

    fn cache(&mut self, nid: NodeId, address: i64, length: i64, data: &[u8]) {
    }

    fn get_cache(&self, nid: NodeId, address: i64, length: i64) -> (r: Option<&[u8]>) {
        None
    }

    fn invalidate_by(&mut self, nid: NodeId) {
    }

    fn invalidate_of(&mut self, nid: NodeId) {
    }

    fn clear(&mut self) {
    }
}

} // verus!
