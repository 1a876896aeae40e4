//! An aggregation bucket: values written under a name are summed, counted
//! and remembered until a flush hands out one line per name.
use vstd::prelude::*;
use crate::name::{Kind, Name};
use crate::text::{dotted, format_name, line_of, print_name_value_line};

verus! {

/// What a bucket holds for one name since the last flush: how many values
/// were written, their sum, and the last one. Both sums stop at the
/// largest `u64` rather than wrap.
#[derive(Clone, Copy, Debug, PartialEq, Eq, Structural)]
pub struct Aggregate {
    pub count: u64,
    pub sum: u64,
    pub last: u64,
}

/// One aggregate as the contracts see it: qualified name, kind, aggregate.
pub type Slot = (Seq<Seq<u8>>, Kind, Aggregate);

/// Whether `s` holds an aggregate for `name` and `kind`.
pub open spec fn has_key(s: Seq<Slot>, name: Seq<Seq<u8>>, kind: Kind) -> bool {
    exists|i: int| 0 <= i < s.len() && s[i].0 == name && s[i].1 == kind
}

/// Where `s` holds the aggregate for `name` and `kind`, if `has_key`.
pub open spec fn key_index(s: Seq<Slot>, name: Seq<Seq<u8>>, kind: Kind) -> int {
    choose|i: int| 0 <= i < s.len() && s[i].0 == name && s[i].1 == kind
}

/// No name and kind is held twice.
pub open spec fn unique_keys(s: Seq<Slot>) -> bool {
    forall|i: int, j: int|
        0 <= i < s.len() && 0 <= j < s.len() && i != j ==> !(s[i].0 == s[j].0 && s[i].1 == s[j].1)
}

/// An aggregate after one more value `v`.
pub open spec fn updated(a: Aggregate, v: u64) -> Aggregate {
    Aggregate { count: a.count.saturating_add(1), sum: a.sum.saturating_add(v), last: v }
}

/// The aggregates after `v` is written under `name` and `kind`: the one
/// held is updated in place, or a new one is appended.
pub open spec fn recorded(s: Seq<Slot>, name: Seq<Seq<u8>>, kind: Kind, v: u64) -> Seq<Slot> {
    if has_key(s, name, kind) {
        let i = key_index(s, name, kind);
        s.update(i, (name, kind, updated(s[i].2, v)))
    } else {
        s.push((name, kind, Aggregate { count: 1, sum: v, last: v }))
    }
}

/// The sum held for `name` and `kind`, zero where nothing is held.
pub open spec fn sum_of(s: Seq<Slot>, name: Seq<Seq<u8>>, kind: Kind) -> nat {
    if has_key(s, name, kind) {
        s[key_index(s, name, kind)].2.sum as nat
    } else {
        0
    }
}

/// The aggregates after `v` is written `k` times under `name` and `kind`.
pub open spec fn repeated(s: Seq<Slot>, name: Seq<Seq<u8>>, kind: Kind, v: u64, k: nat) -> Seq<Slot>
    decreases k,
{
    if k == 0 {
        s
    } else {
        recorded(repeated(s, name, kind, v, (k - 1) as nat), name, kind, v)
    }
}

/// The value a flush reports for an aggregate: the last value of a gauge,
/// the sum for every other kind.
pub open spec fn summary_value(kind: Kind, a: Aggregate) -> u64 {
    if kind == Kind::Gauge {
        a.last
    } else {
        a.sum
    }
}

/// The lines a flush hands out: one per aggregate written since the last
/// flush, in the order the names were first written.
pub open spec fn flush_lines(s: Seq<Slot>) -> Seq<Seq<u8>>
    decreases s.len(),
{
    if s.len() == 0 {
        Seq::empty()
    } else {
        let e = s.last();
        let front = flush_lines(s.drop_last());
        if e.2.count > 0 {
            front.push(line_of(dotted(e.0), summary_value(e.1, e.2) as nat))
        } else {
            front
        }
    }
}

/// An aggregate after a flush: nothing counted or summed; a gauge keeps
/// its last value, which has no empty state.
pub open spec fn reset(a: Aggregate) -> Aggregate {
    Aggregate { count: 0, sum: 0, last: a.last }
}

/// The aggregates after a flush.
pub open spec fn flushed(s: Seq<Slot>) -> Seq<Slot> {
    s.map_values(|e: Slot| (e.0, e.1, reset(e.2)))
}

/// Recording keeps every name and kind held once.
pub proof fn lemma_recorded_unique(s: Seq<Slot>, name: Seq<Seq<u8>>, kind: Kind, v: u64)
    requires
        unique_keys(s),
    ensures
        unique_keys(recorded(s, name, kind, v)),
        has_key(recorded(s, name, kind, v), name, kind),
        recorded(s, name, kind, v)[key_index(recorded(s, name, kind, v), name, kind)].2.count > 0,
        sum_of(recorded(s, name, kind, v), name, kind) == sum_of(s, name, kind) + v
            || sum_of(recorded(s, name, kind, v), name, kind) == u64::MAX,
        sum_of(s, name, kind) + v <= u64::MAX ==> sum_of(recorded(s, name, kind, v), name, kind)
            == sum_of(s, name, kind) + v,
{
    let r = recorded(s, name, kind, v);
    if has_key(s, name, kind) {
        let i = key_index(s, name, kind);
        assert(r[i].0 == name && r[i].1 == kind);
        let j = key_index(r, name, kind);
        assert(j == i);
    } else {
        let n = s.len() as int;
        assert(r[n].0 == name && r[n].1 == kind);
        let j = key_index(r, name, kind);
        assert(j == n);
    }
}

/// No write is lost or counted twice: writing 1 under a name `k` times
/// adds exactly `k` to its sum, whatever was held before, as long as the
/// sum stays within `u64`.
pub proof fn counted_writes(s: Seq<Slot>, name: Seq<Seq<u8>>, kind: Kind, k: nat)
    requires
        unique_keys(s),
        sum_of(s, name, kind) + k <= u64::MAX,
    ensures
        unique_keys(repeated(s, name, kind, 1, k)),
        sum_of(repeated(s, name, kind, 1, k), name, kind) == sum_of(s, name, kind) + k,
    decreases k,
{
    if k > 0 {
        counted_writes(s, name, kind, (k - 1) as nat);
        lemma_recorded_unique(repeated(s, name, kind, 1, (k - 1) as nat), name, kind, 1);
    }
}

/// Each line a flush hands out is the line of one aggregate, and every
/// aggregate written since the last flush has its line there.
pub proof fn lemma_flush_lines_cover(s: Seq<Slot>, i: int)
    requires
        0 <= i < s.len(),
        s[i].2.count > 0,
    ensures
        flush_lines(s).contains(line_of(dotted(s[i].0), summary_value(s[i].1, s[i].2) as nat)),
    decreases s.len(),
{
    let l = line_of(dotted(s[i].0), summary_value(s[i].1, s[i].2) as nat);
    if i == s.len() - 1 {
        let f = flush_lines(s);
        assert(f[f.len() - 1] == l);
    } else {
        lemma_flush_lines_cover(s.drop_last(), i);
        let front = flush_lines(s.drop_last());
        let j = choose|j: int| 0 <= j < front.len() && front[j] == l;
        if s.last().2.count > 0 {
            assert(flush_lines(s)[j] == l);
        }
    }
}

/// Writing 1 under a counter `k` times into an empty bucket, the next flush
/// reports the counter's full name with the value `k`.
pub proof fn counter_flush_reports_count(name: Seq<Seq<u8>>, k: nat)
    requires
        1 <= k <= u64::MAX,
    ensures
        flush_lines(repeated(Seq::empty(), name, Kind::Counter, 1, k)).contains(
            line_of(dotted(name), k),
        ),
{
    let e = Seq::<Slot>::empty();
    counted_writes(e, name, Kind::Counter, k);
    let before = repeated(e, name, Kind::Counter, 1, (k - 1) as nat);
    counted_writes(e, name, Kind::Counter, (k - 1) as nat);
    lemma_recorded_unique(before, name, Kind::Counter, 1);
    let s = repeated(e, name, Kind::Counter, 1, k);
    let i = key_index(s, name, Kind::Counter);
    assert(s[i].0 == name && s[i].1 == Kind::Counter);
    assert(s[i].2.sum == k);
    lemma_flush_lines_cover(s, i);
}

struct BucketEntry {
    name: Name,
    kind: Kind,
    agg: Aggregate,
}

spec fn old_slot(entries: Seq<BucketEntry>, k: int) -> Slot {
    (entries[k].name@, entries[k].kind, entries[k].agg)
}

/// Replaces the aggregate of the entry at `i`.
fn set_agg(entries: &mut Vec<BucketEntry>, i: usize, a: Aggregate)
    requires
        i < old(entries)@.len(),
    ensures
        final(entries)@.len() == old(entries)@.len(),
        final(entries)@[i as int].name@ == old(entries)@[i as int].name@,
        final(entries)@[i as int].kind == old(entries)@[i as int].kind,
        final(entries)@[i as int].agg == a,
        forall|k: int| 0 <= k < final(entries)@.len() && k != i ==> final(entries)@[k] == old(entries)@[k],
{
    let mut e = entries.remove(i);
    e.agg = a;
    entries.insert(i, e);
}

/// Aggregates values per qualified name and kind until a flush.
pub struct AtomicBucket {
    prefix: Name,
    entries: Vec<BucketEntry>,
}

impl AtomicBucket {
    /// What the bucket holds, in the order the names were first written.
    pub closed spec fn slots(&self) -> Seq<Slot> {
        self.entries@.map_values(|e: BucketEntry| (e.name@, e.kind, e.agg))
    }

    /// The prefix put before every name written into the bucket.
    pub closed spec fn prefix(&self) -> Seq<Seq<u8>> {
        self.prefix@
    }

    /// No name and kind is held twice.
    pub closed spec fn wf(&self) -> bool {
        unique_keys(self.slots())
    }

    /// An empty bucket with no prefix.
    pub fn new() -> (r: AtomicBucket)
        ensures
            r.wf(),
            r.slots() == Seq::<Slot>::empty(),
            r.prefix() == Seq::<Seq<u8>>::empty(),
    {
        let r = AtomicBucket { prefix: Name::empty(), entries: Vec::new() };
        assert(r.slots() =~= Seq::<Slot>::empty());
        r
    }

    /// This bucket with `segment` appended to its prefix.
    pub fn add_prefix(self, segment: &str) -> (r: AtomicBucket)
        requires
            self.wf(),
        ensures
            r.wf(),
            r.slots() == self.slots(),
            r.prefix() == self.prefix().push(vstd::string::StringSliceAdditionalSpecFns::spec_bytes(segment)),
    {
        AtomicBucket { prefix: self.prefix.with_segment(segment), entries: self.entries }
    }

    /// Records `value` under the prefix followed by `name`, with `kind`.
    pub fn write(&mut self, name: &Name, kind: Kind, value: u64)
        requires
            old(self).wf(),
        ensures
            final(self).wf(),
            final(self).prefix() == old(self).prefix(),
            final(self).slots() == recorded(old(self).slots(), old(self).prefix() + name@, kind, value),
    {
        let qualified = self.prefix.concat(name);
        let ghost s = self.slots();
        let ghost key = qualified@;
        let mut i: usize = 0;
        while i < self.entries.len()
            invariant
                i <= self.entries@.len(),
                self.slots() == s,
                self.prefix() == old(self).prefix(),
                s == old(self).slots(),
                key == old(self).prefix() + name@,
                qualified@ == key,
                unique_keys(s),
                forall|k: int| 0 <= k < i ==> !(#[trigger] s[k].0 == key && s[k].1 == kind),
            decreases self.entries@.len() - i,
        {
            proof {
                assert(self.slots()[i as int] == (self.entries@[i as int].name@, self.entries@[i as int].kind, self.entries@[i as int].agg));
            }
            let same_kind = self.entries[i].kind == kind;
            let same_name = self.entries[i].name.same_as(&qualified);
            if same_kind && same_name {
                proof {
                    assert(self.entries@[i as int].kind == kind);
                    assert(self.entries@[i as int].name@ == key);
                    assert(self.slots()[i as int] == (self.entries@[i as int].name@, self.entries@[i as int].kind, self.entries@[i as int].agg));
                    assert(s[i as int].0 == key && s[i as int].1 == kind);
                    assert(has_key(s, key, kind));
                    let j = key_index(s, key, kind);
                    assert(j == i as int);
                }
                let a = self.entries[i].agg;
                let na = Aggregate {
                    count: a.count.saturating_add(1),
                    sum: a.sum.saturating_add(value),
                    last: value,
                };
                set_agg(&mut self.entries, i, na);
                proof {
                    assert(self.slots() =~= recorded(s, key, kind, value));
                    lemma_recorded_unique(s, key, kind, value);
                }
                return;
            }
            i = i + 1;
        }
        self.entries.push(BucketEntry { name: qualified, kind, agg: Aggregate { count: 1, sum: value, last: value } });
        proof {
            assert(!has_key(s, key, kind));
            assert(self.slots() =~= recorded(s, key, kind, value));
            lemma_recorded_unique(s, key, kind, value);
        }
    }

    /// Hands out one line per name and kind written since the last flush,
    /// with its summary value, and resets every aggregate.
    pub fn flush(&mut self) -> (r: Vec<Vec<u8>>)
        requires
            old(self).wf(),
        ensures
            final(self).wf(),
            final(self).prefix() == old(self).prefix(),
            crate::name::views(r@) == flush_lines(old(self).slots()),
            final(self).slots() == flushed(old(self).slots()),
    {
        let ghost s = self.slots();
        let mut lines: Vec<Vec<u8>> = Vec::new();
        let mut i: usize = 0;
        while i < self.entries.len()
            invariant
                i <= self.entries@.len(),
                self.entries@.len() == s.len(),
                self.prefix() == old(self).prefix(),
                s == old(self).slots(),
                forall|k: int| 0 <= k < i ==> #[trigger] self.slots()[k] == flushed(s)[k],
                forall|k: int| i <= k < s.len() ==> #[trigger] self.slots()[k] == s[k],
                crate::name::views(lines@) == flush_lines(s.subrange(0, i as int)),
            decreases self.entries@.len() - i,
        {
            let a = self.entries[i].agg;
            let ghost before = self.entries@;
            let ghost sl = self.slots();
            proof {
                assert(s.subrange(0, i + 1).drop_last() =~= s.subrange(0, i as int));
                assert(self.slots()[i as int] == s[i as int]);
                assert(self.slots()[i as int] == (before[i as int].name@, before[i as int].kind, before[i as int].agg));
            }
            if a.count > 0 {
                let template = format_name(&self.entries[i].name, self.entries[i].kind);
                let v = if self.entries[i].kind == Kind::Gauge { a.last } else { a.sum };
                let line = print_name_value_line(&template, v);
                lines.push(line);
                proof {
                    assert(crate::name::views(lines@) =~= flush_lines(s.subrange(0, i + 1)));
                }
            }
            set_agg(&mut self.entries, i, Aggregate { count: 0, sum: 0, last: a.last });
            proof {
                assert forall|k: int| 0 <= k < s.len() && k != i implies #[trigger] self.slots()[k] == sl[k] by {
                    assert(self.entries@[k] == before[k]);
                    assert(self.slots()[k] == old_slot(self.entries@, k));
                    assert(sl[k] == old_slot(before, k));
                }
                assert(self.slots()[i as int] == old_slot(self.entries@, i as int));
                assert(self.slots()[i as int] == flushed(s)[i as int]);
            }
            i = i + 1;
        }
        proof {
            assert(s.subrange(0, i as int) =~= s);
            assert(self.slots() =~= flushed(s));
            assert forall|a: int, b: int|
                0 <= a < self.slots().len() && 0 <= b < self.slots().len() && a != b
                implies !(self.slots()[a].0 == self.slots()[b].0 && self.slots()[a].1 == self.slots()[b].1) by {
                assert(self.slots()[a].0 == s[a].0 && self.slots()[b].0 == s[b].0);
            }
        }
        lines
    }
}

} // verus!
