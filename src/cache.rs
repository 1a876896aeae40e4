//! A bounded cache of built metrics, least recently used out first.
use vstd::prelude::*;
use crate::logging::{Log, Metric};
use crate::name::{Kind, Name};
use crate::text::dotted;

verus! {

/// What a cached metric is looked up by: its qualified name, its kind and
/// whether it buffers.
pub type CacheKey = (Seq<Seq<u8>>, Kind, bool);

/// The keys of a cache after a request for `key`, least recently used
/// first: a key already there moves to the end; a new one is appended, and
/// the least recently used key leaves when there are more than `capacity`.
pub open spec fn lru_step(keys: Seq<CacheKey>, key: CacheKey, capacity: nat) -> Seq<CacheKey> {
    if keys.contains(key) {
        keys.remove(keys.index_of(key)).push(key)
    } else if keys.len() + 1 > capacity {
        keys.push(key).drop_first()
    } else {
        keys.push(key)
    }
}

/// The keys of a cache holding `keys` after requests for each of `ks` in
/// turn.
pub open spec fn requests(keys: Seq<CacheKey>, ks: Seq<CacheKey>, capacity: nat) -> Seq<CacheKey>
    decreases ks.len(),
{
    if ks.len() == 0 {
        keys
    } else {
        lru_step(requests(keys, ks.drop_last(), capacity), ks.last(), capacity)
    }
}

/// Asking for the same key twice in a row: after the first request the key
/// is held (when the capacity is not zero), so the second is served from
/// the cache and leaves the keys as they were.
pub proof fn repeated_request_hits(keys: Seq<CacheKey>, key: CacheKey, capacity: nat)
    requires
        keys.no_duplicates(),
        keys.len() <= capacity,
        capacity > 0,
    ensures
        lru_step(keys, key, capacity).contains(key),
        lru_step(lru_step(keys, key, capacity), key, capacity) == lru_step(keys, key, capacity),
{
    let s = lru_step(keys, key, capacity);
    assert(s.last() == key);
    assert(s[s.len() - 1] == key);
    let j = s.index_of(key);
    assert(s[j] == key);
    if j != s.len() - 1 {
        if keys.contains(key) {
            let i = keys.index_of(key);
            let ji = if j < i { j } else { j + 1 };
            assert(s[j] == keys[ji]);
            assert(keys[ji] == keys[i]);
        } else {
            if keys.len() + 1 > capacity {
                assert(s[j] == keys.push(key)[j + 1]);
                assert(keys.push(key)[j + 1] == keys[j + 1]);
                assert(keys.contains(key));
            } else {
                assert(keys[j] == key);
                assert(keys.contains(key));
            }
        }
    }
    assert(s.remove(j).push(key) =~= s);
}

/// Distinct keys requested in turn, no more than the capacity, are all held
/// in the order of their requests.
pub proof fn lemma_distinct_requests_fill(ks: Seq<CacheKey>, capacity: nat)
    requires
        ks.no_duplicates(),
        ks.len() <= capacity,
    ensures
        requests(Seq::empty(), ks, capacity) == ks,
    decreases ks.len(),
{
    if ks.len() > 0 {
        let front = ks.drop_last();
        assert(front.no_duplicates());
        lemma_distinct_requests_fill(front, capacity);
        assert(!front.contains(ks.last()));
        assert(front.push(ks.last()) =~= ks);
    }
}

/// After one more distinct key than the capacity has been requested from an
/// empty cache, the least recently used one, the first, is no longer held:
/// asking for it again builds a new metric.
pub proof fn least_recent_is_evicted(ks: Seq<CacheKey>, capacity: nat)
    requires
        ks.no_duplicates(),
        ks.len() == capacity + 1,
    ensures
        !requests(Seq::empty(), ks, capacity).contains(ks[0]),
{
    let front = ks.drop_last();
    assert(front.no_duplicates());
    lemma_distinct_requests_fill(front, capacity);
    assert(!front.contains(ks.last()));
    let r = requests(Seq::empty(), ks, capacity);
    assert(r =~= ks.drop_first());
    if r.contains(ks[0]) {
        let j = r.index_of(ks[0]);
        assert(ks[j + 1] == ks[0]);
    }
}

struct CacheEntry {
    name: Name,
    kind: Kind,
    metric: Metric,
}

/// Keeps up to `capacity` built metrics so that asking again for the same
/// name and kind hands back the metric built before.
pub struct MetricCache {
    capacity: usize,
    entries: Vec<CacheEntry>,
}

impl MetricCache {
    /// The keys held, least recently used first.
    pub closed spec fn keys(&self) -> Seq<CacheKey> {
        self.entries@.map_values(|e: CacheEntry| (e.name@, e.kind, e.metric.buffered()))
    }

    /// The most keys held at once.
    pub closed spec fn capacity(&self) -> nat {
        self.capacity as nat
    }

    /// Each held metric was built for its key, no key is held twice, and no
    /// more keys are held than the capacity.
    pub closed spec fn wf(&self) -> bool {
        &&& self.keys().no_duplicates()
        &&& self.entries@.len() <= self.capacity
        &&& forall|i: int|
            0 <= i < self.entries@.len() ==> {
                let e = #[trigger] self.entries@[i];
                e.metric.template() == dotted(e.name@) && e.metric.kind() == e.kind
            }
    }

    /// An empty cache that holds up to `capacity` metrics.
    pub fn new(capacity: usize) -> (r: MetricCache)
        ensures
            r.wf(),
            r.capacity() == capacity,
            r.keys() == Seq::<CacheKey>::empty(),
    {
        let r = MetricCache { capacity, entries: Vec::new() };
        assert(r.keys() =~= Seq::<CacheKey>::empty());
        r
    }

    /// How many metrics are held.
    pub fn len(&self) -> (r: usize)
        ensures
            r == self.keys().len(),
    {
        self.entries.len()
    }

    /// Whether a metric is held for the qualified name `name`, `kind` and
    /// buffering `buffered`.
    pub fn holds(&self, name: &Name, kind: Kind, buffered: bool) -> (r: bool)
        requires
            self.wf(),
        ensures
            r == self.keys().contains((name@, kind, buffered)),
    {
        match self.find(name, kind, buffered) {
            Some(_) => true,
            None => false,
        }
    }

    /// Where `key` is held, if it is.
    fn find(&self, name: &Name, kind: Kind, buffered: bool) -> (r: Option<usize>)
        requires
            self.wf(),
        ensures
            match r {
                Some(i) => i < self.keys().len() && self.keys()[i as int] == (name@, kind, buffered),
                None => !self.keys().contains((name@, kind, buffered)),
            },
    {
        let mut i: usize = 0;
        while i < self.entries.len()
            invariant
                i <= self.entries@.len(),
                self.keys().len() == self.entries@.len(),
                forall|k: int| 0 <= k < i ==> self.keys()[k] != (name@, kind, buffered),
            decreases self.entries@.len() - i,
        {
            let e = &self.entries[i];
            if e.kind == kind && e.metric.is_buffered() == buffered && e.name.same_as(name) {
                return Some(i);
            }
            i = i + 1;
        }
        None
    }

    /// The metric for `name` and `kind` in `scope`: the one held for the
    /// scope's qualified name, kind and buffering if there is one, else a
    /// newly built one that is then held. Either way the metric is exactly
    /// the one `scope.new_metric` builds, and the keys follow `lru_step`.
    pub fn new_metric(&mut self, scope: &Log, name: &Name, kind: Kind) -> (r: Metric)
        requires
            old(self).wf(),
        ensures
            final(self).wf(),
            final(self).capacity() == old(self).capacity(),
            final(self).keys() == lru_step(
                old(self).keys(),
                (scope.prefix() + name@, kind, scope.buffered()),
                old(self).capacity(),
            ),
            r.template() == dotted(scope.prefix() + name@),
            r.kind() == kind,
            r.buffered() == scope.buffered(),
    {
        let qualified = scope.get_attributes().qualified_name(name);
        let buffered = scope.get_attributes().is_buffering();
        let ghost key = (scope.prefix() + name@, kind, scope.buffered());
        let ghost keys0 = self.keys();
        match self.find(&qualified, kind, buffered) {
            Some(i) => {
                proof {
                    assert(keys0.contains(key));
                    assert(keys0.index_of(key) == i as int);
                }
                let e = self.entries.remove(i);
                let r = e.metric.copy();
                self.entries.push(e);
                proof {
                    assert(self.keys() =~= keys0.remove(i as int).push(key));
                    assert forall|a: int, b: int|
                        0 <= a < self.keys().len() && 0 <= b < self.keys().len() && a != b
                        implies self.keys()[a] != self.keys()[b] by {
                        let la = self.keys().len() - 1;
                        if a == la || b == la {
                            let o = if a == la { b } else { a };
                            let oi = if o < i { o } else { o + 1 };
                            assert(self.keys()[o] == keys0[oi]);
                        } else {
                            let ai = if a < i { a } else { a + 1 };
                            let bi = if b < i { b } else { b + 1 };
                            assert(self.keys()[a] == keys0[ai]);
                            assert(self.keys()[b] == keys0[bi]);
                        }
                    }
                    assert forall|k: int| 0 <= k < self.entries@.len() implies {
                        let e = #[trigger] self.entries@[k];
                        e.metric.template() == dotted(e.name@) && e.metric.kind() == e.kind
                    } by {
                        if k < self.entries@.len() - 1 {
                            let ki = if k < i { k } else { k + 1 };
                            assert(self.entries@[k] == old(self).entries@[ki]);
                        }
                    }
                }
                r
            },
            None => {
                let m = scope.new_metric(name, kind);
                let r = m.copy();
                self.entries.push(CacheEntry { name: qualified, kind, metric: m });
                proof {
                    assert(self.keys() =~= keys0.push(key));
                }
                if self.entries.len() > self.capacity {
                    self.entries.remove(0);
                    proof {
                        assert(self.keys() =~= keys0.push(key).drop_first());
                    }
                }
                proof {
                    assert forall|a: int, b: int|
                        0 <= a < self.keys().len() && 0 <= b < self.keys().len() && a != b
                        implies self.keys()[a] != self.keys()[b] by {
                        let s = keys0.push(key);
                        if self.keys().len() == s.len() {
                            assert(self.keys()[a] == s[a] && self.keys()[b] == s[b]);
                        } else {
                            assert(self.keys()[a] == s[a + 1] && self.keys()[b] == s[b + 1]);
                        }
                    }
                }
                r
            },
        }
    }
}

} // verus!
