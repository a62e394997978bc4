//! A bounded store of synthesised audio, keyed by request fingerprint.
//!
//! Entries expire a fixed time after they were created. When the store is
//! full, an insert first evicts the entry with the fewest reads, the least
//! recently read among those.
use vstd::prelude::*;

use crate::platform::millis_of;
use crate::tts::client::{AudioData, AudioDataView};

verus! {

/// Time to live of an entry unless configured otherwise: one hour, in milliseconds.
pub const DEFAULT_MAX_AGE_MS: u64 = 3_600_000;

/// One cached buffer and its bookkeeping. Times are milliseconds on the
/// cache's own clock.
#[derive(Debug, Clone)]
pub struct CacheEntry {
    pub key: String,
    pub data: AudioData,
    pub created_at: u64,
    pub access_count: u32,
    pub last_accessed: u64,
}

/// The value of a `CacheEntry`.
pub struct EntryView {
    pub key: Seq<char>,
    pub data: AudioDataView,
    pub created_at: u64,
    pub access_count: u32,
    pub last_accessed: u64,
}

impl View for CacheEntry {
    type V = EntryView;

    open spec fn view(&self) -> EntryView {
        EntryView {
            key: self.key@,
            data: self.data@,
            created_at: self.created_at,
            access_count: self.access_count,
            last_accessed: self.last_accessed,
        }
    }
}

/// The value of a cache: its entries in insertion order, the most entries
/// it keeps, how long an entry lives, and the latest time it has seen.
pub struct CacheView {
    pub entries: Seq<EntryView>,
    pub capacity: usize,
    pub max_age_ms: u64,
    pub clock: u64,
}

/// The bounded audio cache.
pub struct TTSCache {
    entries: Vec<CacheEntry>,
    max_size: usize,
    max_age_ms: u64,
    clock: u64,
    origin: std::time::Instant,
}

/// The position of the first entry under `key`, or -1 where there is none.
pub open spec fn key_index(s: Seq<EntryView>, key: Seq<char>) -> int
    decreases s.len(),
{
    if s.len() == 0 {
        -1
    } else if s[0].key == key {
        0
    } else {
        let r = key_index(s.drop_first(), key);
        if r < 0 {
            -1
        } else {
            r + 1
        }
    }
}

/// Whether an entry is too old to be served at time `t`.
pub open spec fn expired(e: EntryView, t: u64, max_age_ms: u64) -> bool {
    t - e.created_at >= max_age_ms
}

/// The entries that are still alive at time `t`, in their order.
pub open spec fn live_entries(s: Seq<EntryView>, t: u64, max_age_ms: u64) -> Seq<EntryView>
    decreases s.len(),
{
    if s.len() == 0 {
        s
    } else {
        let rest = live_entries(s.drop_last(), t, max_age_ms);
        if expired(s.last(), t, max_age_ms) {
            rest
        } else {
            rest.push(s.last())
        }
    }
}

/// An entry after one more read at time `t`.
pub open spec fn touched(e: EntryView, t: u64) -> EntryView {
    EntryView {
        access_count: if e.access_count < u32::MAX {
            (e.access_count + 1) as u32
        } else {
            e.access_count
        },
        last_accessed: t,
        ..e
    }
}

/// A new entry made at time `t`.
pub open spec fn fresh_entry(key: Seq<char>, data: AudioDataView, t: u64) -> EntryView {
    EntryView { key, data, created_at: t, access_count: 1, last_accessed: t }
}

/// Whether `a` goes before `b` when choosing what to evict: fewer reads, or
/// as many reads and an older last read.
pub open spec fn evicts_before(a: EntryView, b: EntryView) -> bool {
    a.access_count < b.access_count || (a.access_count == b.access_count && a.last_accessed
        <= b.last_accessed)
}

/// Whether the entry at `v` is one that eviction may choose: none goes before it.
pub open spec fn is_victim(s: Seq<EntryView>, v: int) -> bool {
    &&& 0 <= v < s.len()
    &&& forall|j: int| 0 <= j < s.len() ==> evicts_before(s[v], #[trigger] s[j])
}

/// `s` with `e` stored under its key: in place of the first entry under
/// that key, or at the end.
pub open spec fn put(s: Seq<EntryView>, e: EntryView) -> Seq<EntryView> {
    if key_index(s, e.key) >= 0 {
        s.update(key_index(s, e.key), e)
    } else {
        s.push(e)
    }
}

/// The later of two times.
pub open spec fn later(a: u64, b: u64) -> u64 {
    if a >= b {
        a
    } else {
        b
    }
}

/// The view of an optional buffer.
pub open spec fn opt_view(r: Option<AudioData>) -> Option<AudioDataView> {
    match r {
        Some(d) => Some(d@),
        None => None,
    }
}

/// What a read of `key` at time `now` does: expired entries go, then a
/// live entry under `key` counts one more read at the cache's time, and its
/// buffer is returned.
pub open spec fn get_result(
    c0: CacheView,
    c1: CacheView,
    key: Seq<char>,
    now: u64,
    r: Option<AudioDataView>,
) -> bool {
    let t = later(now, c0.clock);
    let live = live_entries(c0.entries, t, c0.max_age_ms);
    let i = key_index(live, key);
    &&& c1.capacity == c0.capacity
    &&& c1.max_age_ms == c0.max_age_ms
    &&& c1.clock == t
    &&& if i >= 0 {
        &&& r == Some(live[i].data)
        &&& c1.entries == live.update(i, touched(live[i], t))
    } else {
        &&& r is None
        &&& c1.entries == live
    }
}

/// What storing `data` under `key` at time `now` does: a cache of capacity
/// zero keeps nothing; where the cache is full, one entry that eviction may
/// choose goes first; then the new entry replaces the one under `key`, or is
/// added at the end.
pub open spec fn insert_result(
    c0: CacheView,
    c1: CacheView,
    key: Seq<char>,
    data: AudioDataView,
    now: u64,
) -> bool {
    let t = later(now, c0.clock);
    let e = fresh_entry(key, data, t);
    &&& c1.capacity == c0.capacity
    &&& c1.max_age_ms == c0.max_age_ms
    &&& c1.clock == t
    &&& if c0.capacity == 0 {
        c1.entries == c0.entries
    } else if c0.entries.len() >= c0.capacity {
        exists|v: int| is_victim(c0.entries, v) && c1.entries == put(c0.entries.remove(v), e)
    } else {
        c1.entries == put(c0.entries, e)
    }
}

proof fn lemma_key_index_found(s: Seq<EntryView>, key: Seq<char>, i: int)
    requires
        0 <= i < s.len(),
        s[i].key == key,
        forall|j: int| 0 <= j < i ==> s[j].key != key,
    ensures
        key_index(s, key) == i,
    decreases i,
{
    if i > 0 {
        lemma_key_index_found(s.drop_first(), key, i - 1);
    }
}

proof fn lemma_key_index_absent(s: Seq<EntryView>, key: Seq<char>)
    requires
        forall|j: int| 0 <= j < s.len() ==> s[j].key != key,
    ensures
        key_index(s, key) == -1,
    decreases s.len(),
{
    if s.len() > 0 {
        lemma_key_index_absent(s.drop_first(), key);
    }
}

proof fn lemma_key_index_range(s: Seq<EntryView>, key: Seq<char>)
    ensures
        -1 <= key_index(s, key) < s.len(),
        key_index(s, key) >= 0 ==> s[key_index(s, key)].key == key,
    decreases s.len(),
{
    if s.len() > 0 {
        lemma_key_index_range(s.drop_first(), key);
    }
}

proof fn lemma_live_entries_bounded(s: Seq<EntryView>, t: u64, max_age_ms: u64)
    ensures
        live_entries(s, t, max_age_ms).len() <= s.len(),
        forall|i: int|
            0 <= i < live_entries(s, t, max_age_ms).len() ==> exists|j: int|
                0 <= j < s.len() && #[trigger] live_entries(s, t, max_age_ms)[i] == s[j],
    decreases s.len(),
{
    if s.len() > 0 {
        let rest = s.drop_last();
        lemma_live_entries_bounded(rest, t, max_age_ms);
        let l = live_entries(s, t, max_age_ms);
        assert forall|i: int| 0 <= i < l.len() implies exists|j: int|
            0 <= j < s.len() && #[trigger] l[i] == s[j] by {
            if i < live_entries(rest, t, max_age_ms).len() {
                let j = choose|j: int| 0 <= j < rest.len() && live_entries(rest, t, max_age_ms)[i]
                    == rest[j];
                assert(s[j] == rest[j]);
            } else {
                assert(l[i] == s[s.len() - 1]);
            }
        }
    }
}

proof fn lemma_put_len(s: Seq<EntryView>, e: EntryView)
    ensures
        put(s, e).len() <= s.len() + 1,
        put(s, e).len() >= s.len(),
{
    lemma_key_index_range(s, e.key);
}

proof fn lemma_all_expired(s: Seq<EntryView>, t: u64, max_age_ms: u64)
    requires
        forall|i: int| 0 <= i < s.len() ==> expired(#[trigger] s[i], t, max_age_ms),
    ensures
        live_entries(s, t, max_age_ms).len() == 0,
    decreases s.len(),
{
    if s.len() > 0 {
        assert(expired(s[s.len() - 1], t, max_age_ms));
        lemma_all_expired(s.drop_last(), t, max_age_ms);
    }
}

/// After any insert, a cache holds no more entries than its capacity.
pub proof fn lemma_insert_within_capacity(
    c0: CacheView,
    c1: CacheView,
    key: Seq<char>,
    data: AudioDataView,
    now: u64,
)
    requires
        cache_wf(c0),
        insert_result(c0, c1, key, data, now),
    ensures
        c1.entries.len() <= c1.capacity,
{
    let e = fresh_entry(key, data, later(now, c0.clock));
    if c0.capacity == 0 {
    } else if c0.entries.len() >= c0.capacity {
        let v = choose|v: int| is_victim(c0.entries, v) && c1.entries == put(c0.entries.remove(v), e);
        lemma_put_len(c0.entries.remove(v), e);
    } else {
        lemma_put_len(c0.entries, e);
    }
}

/// An entry stored under `key` and read again once its time to live has
/// passed since the store is not returned, though nothing evicted it.
pub proof fn lemma_expired_entry_not_served(
    c0: CacheView,
    c1: CacheView,
    c2: CacheView,
    key: Seq<char>,
    data: AudioDataView,
    stored_at: u64,
    read_at: u64,
    r: Option<AudioDataView>,
)
    requires
        cache_wf(c0),
        cache_wf(c1),
        insert_result(c0, c1, key, data, stored_at),
        get_result(c1, c2, key, read_at, r),
        read_at >= later(stored_at, c0.clock) + c1.max_age_ms,
    ensures
        r is None,
{
    let t = later(read_at, c1.clock);
    assert forall|i: int| 0 <= i < c1.entries.len() implies expired(
        #[trigger] c1.entries[i],
        t,
        c1.max_age_ms,
    ) by {
        assert(c1.entries[i].access_count >= 1);
    }
    lemma_all_expired(c1.entries, t, c1.max_age_ms);
    lemma_key_index_range(live_entries(c1.entries, t, c1.max_age_ms), key);
}

/// The reads of all entries together.
pub open spec fn total_reads(s: Seq<EntryView>) -> nat
    decreases s.len(),
{
    if s.len() == 0 {
        0
    } else {
        total_reads(s.drop_last()) + s.last().access_count as nat
    }
}

/// The container bytes of all entries together.
pub open spec fn total_bytes(s: Seq<EntryView>) -> nat
    decreases s.len(),
{
    if s.len() == 0 {
        0
    } else {
        total_bytes(s.drop_last()) + s.last().data.data.len()
    }
}

/// The ages of all entries at time `t`, together.
pub open spec fn total_age(s: Seq<EntryView>, t: u64) -> nat
    decreases s.len(),
{
    if s.len() == 0 {
        0
    } else {
        total_age(s.drop_last(), t) + (t - s.last().created_at) as nat
    }
}

/// `v`, or `u64::MAX` where it is larger.
pub open spec fn capped(v: nat) -> u64 {
    if v > u64::MAX {
        u64::MAX
    } else {
        v as u64
    }
}

/// Reads that found their entry already there, out of all reads counted.
#[derive(Debug, Clone, Copy, PartialEq, Eq)]
pub struct HitRate {
    pub hits: u64,
    pub accesses: u64,
}

/// A summary of the cache.
#[derive(Debug, Clone, Copy)]
pub struct CacheStats {
    pub entries: usize,
    pub capacity: usize,
    pub total_accesses: u64,
    pub hit_rate: HitRate,
    pub total_size_bytes: u64,
    pub average_age_ms: u64,
}

/// The hit rate of a cache: every read of an entry but its first counts as
/// a hit; nothing where the cache is empty.
pub open spec fn hit_rate_of(s: Seq<EntryView>) -> HitRate {
    if s.len() == 0 {
        HitRate { hits: 0, accesses: 0 }
    } else {
        HitRate { hits: (capped(total_reads(s)) - s.len()) as u64, accesses: capped(total_reads(s)) }
    }
}

/// The summary of cache `c` at time `t`; sums stop at `u64::MAX`.
pub open spec fn stats_of(c: CacheView, t: u64) -> CacheStats {
    CacheStats {
        entries: c.entries.len() as usize,
        capacity: c.capacity,
        total_accesses: capped(total_reads(c.entries)),
        hit_rate: hit_rate_of(c.entries),
        total_size_bytes: capped(total_bytes(c.entries)),
        average_age_ms: if c.entries.len() == 0 {
            0
        } else {
            (capped(total_age(c.entries, t)) as nat / c.entries.len()) as u64
        },
    }
}

proof fn lemma_total_reads_at_least_len(s: Seq<EntryView>)
    requires
        forall|i: int| 0 <= i < s.len() ==> #[trigger] s[i].access_count >= 1,
    ensures
        total_reads(s) >= s.len(),
    decreases s.len(),
{
    if s.len() > 0 {
        assert(s[s.len() - 1].access_count >= 1);
        lemma_total_reads_at_least_len(s.drop_last());
    }
}

/// What entries are ranked by: their last read where `by_recency`, else
/// their number of reads.
pub open spec fn score(e: EntryView, by_recency: bool) -> int {
    if by_recency {
        e.last_accessed as int
    } else {
        e.access_count as int
    }
}

/// Whether `idx` picks the top entries of `s` by score: at most `limit`
/// distinct positions, highest score first, none left out that scores
/// higher than one picked, and all of them where fewer than `limit` are
/// picked.
pub open spec fn top_selection(s: Seq<EntryView>, idx: Seq<usize>, limit: usize, by_recency: bool) -> bool {
    &&& idx.len() <= limit
    &&& forall|p: int| 0 <= p < idx.len() ==> #[trigger] idx[p] < s.len()
    &&& forall|p: int, q: int| 0 <= p < q < idx.len() ==> idx[p] != idx[q]
    &&& forall|p: int, q: int|
        0 <= p < q < idx.len() ==> score(s[idx[p] as int], by_recency) >= score(
            s[idx[q] as int],
            by_recency,
        )
    &&& forall|j: usize, p: int|
        0 <= j < s.len() && !idx.contains(j) && 0 <= p < idx.len() ==> score(
            #[trigger] s[j as int],
            by_recency,
        ) <= score(s[#[trigger] idx[p] as int], by_recency)
    &&& idx.len() < limit ==> forall|j: usize| 0 <= j < s.len() ==> #[trigger] idx.contains(j)
}

/// The view of a list of keyed buffers.
pub open spec fn item_views(v: Seq<(String, AudioData)>) -> Seq<(Seq<char>, AudioDataView)> {
    v.map_values(|p: (String, AudioData)| (p.0@, p.1@))
}

/// `s` with each item stored in turn as a new entry made at time `t`.
pub open spec fn put_all(s: Seq<EntryView>, items: Seq<(Seq<char>, AudioDataView)>, t: u64) -> Seq<
    EntryView,
>
    decreases items.len(),
{
    if items.len() == 0 {
        s
    } else {
        put(put_all(s, items.drop_last(), t), fresh_entry(items.last().0, items.last().1, t))
    }
}

/// The view of an entry sequence.
pub open spec fn entry_views(v: Seq<CacheEntry>) -> Seq<EntryView> {
    v.map_values(|e: CacheEntry| e@)
}

proof fn lemma_entry_views(v: Seq<CacheEntry>)
    ensures
        entry_views(v).len() == v.len(),
        forall|i: int| 0 <= i < v.len() ==> #[trigger] entry_views(v)[i] == v[i]@,
{
}

impl View for TTSCache {
    type V = CacheView;

    closed spec fn view(&self) -> CacheView {
        CacheView {
            entries: entry_views(self.entries@),
            capacity: self.max_size,
            max_age_ms: self.max_age_ms,
            clock: self.clock,
        }
    }
}

/// Whether every entry is consistent with a cache whose clock reads `clock`:
/// read at least once, and created no later than last read, which is no
/// later than the clock.
pub open spec fn entries_consistent(s: Seq<EntryView>, clock: u64) -> bool {
    forall|i: int|
        0 <= i < s.len() ==> {
            &&& #[trigger] s[i].access_count >= 1
            &&& s[i].created_at <= s[i].last_accessed
            &&& s[i].last_accessed <= clock
        }
}

/// Whether no two entries share a key.
pub open spec fn keys_unique(s: Seq<EntryView>) -> bool {
    forall|i: int, j: int| 0 <= i < j < s.len() ==> #[trigger] s[i].key != #[trigger] s[j].key
}

proof fn lemma_key_index_missing(s: Seq<EntryView>, key: Seq<char>)
    requires
        key_index(s, key) < 0,
    ensures
        forall|j: int| 0 <= j < s.len() ==> #[trigger] s[j].key != key,
    decreases s.len(),
{
    if s.len() > 0 {
        lemma_key_index_missing(s.drop_first(), key);
        assert forall|j: int| 0 <= j < s.len() implies #[trigger] s[j].key != key by {
            if j > 0 {
                assert(s.drop_first()[j - 1] == s[j]);
            }
        }
    }
}

proof fn lemma_unique_put(s: Seq<EntryView>, e: EntryView)
    requires
        keys_unique(s),
    ensures
        keys_unique(put(s, e)),
{
    lemma_key_index_range(s, e.key);
    let p = put(s, e);
    if key_index(s, e.key) >= 0 {
        let k = key_index(s, e.key);
        assert forall|i: int, j: int| 0 <= i < j < p.len() implies #[trigger] p[i].key
            != #[trigger] p[j].key by {
            if i == k {
                assert(p[i].key == s[k].key);
            }
            if j == k {
                assert(p[j].key == s[k].key);
            }
        }
    } else {
        lemma_key_index_missing(s, e.key);
        assert forall|i: int, j: int| 0 <= i < j < p.len() implies #[trigger] p[i].key
            != #[trigger] p[j].key by {
            if j == s.len() {
                assert(s[i].key != e.key);
            }
        }
    }
}

proof fn lemma_unique_live(s: Seq<EntryView>, t: u64, max_age_ms: u64)
    requires
        keys_unique(s),
    ensures
        keys_unique(live_entries(s, t, max_age_ms)),
    decreases s.len(),
{
    if s.len() > 0 {
        let rest = s.drop_last();
        assert(keys_unique(rest));
        lemma_unique_live(rest, t, max_age_ms);
        lemma_live_entries_bounded(rest, t, max_age_ms);
        let l = live_entries(rest, t, max_age_ms);
        if !expired(s.last(), t, max_age_ms) {
            let p = l.push(s.last());
            assert forall|i: int, j: int| 0 <= i < j < p.len() implies #[trigger] p[i].key
                != #[trigger] p[j].key by {
                if j == l.len() {
                    let m = choose|m: int| 0 <= m < rest.len() && l[i] == rest[m];
                    assert(s[m] == rest[m]);
                }
            }
        }
    }
}

/// The invariant of a cache value: consistent entries under distinct keys,
/// and no more of them than the capacity.
pub open spec fn cache_wf(c: CacheView) -> bool {
    &&& entries_consistent(c.entries, c.clock)
    &&& keys_unique(c.entries)
    &&& c.entries.len() <= c.capacity
}

impl TTSCache {
    /// The invariant of the cache.
    pub open spec fn wf(&self) -> bool {
        cache_wf(self@)
    }

    /// An empty cache that keeps at most `max_size` entries, each for one hour.
    pub fn new(max_size: usize) -> (r: Self)
        ensures
            r.wf(),
            r@.entries.len() == 0,
            r@.capacity == max_size,
            r@.max_age_ms == DEFAULT_MAX_AGE_MS,
            r@.clock == 0,
    {
        let r = TTSCache {
            entries: Vec::new(),
            max_size,
            max_age_ms: DEFAULT_MAX_AGE_MS,
            clock: 0,
            origin: std::time::Instant::now(),
        };
        assert(r@.entries =~= Seq::<EntryView>::empty());
        r
    }

    /// The same cache with entries living `max_age_ms` milliseconds.
    pub fn with_max_age_ms(self, max_age_ms: u64) -> (r: Self)
        requires
            self.wf(),
        ensures
            r.wf(),
            r@ == (CacheView { max_age_ms, ..self@ }),
    {
        let mut c = self;
        c.max_age_ms = max_age_ms;
        c
    }

    /// The same cache with entries living `max_age`, counted in whole
    /// milliseconds (at most `u64::MAX`).
    pub fn with_max_age(self, max_age: std::time::Duration) -> (r: Self)
        requires
            self.wf(),
        ensures
            r.wf(),
            r@ == (CacheView {
                max_age_ms: if millis_of(max_age) > u64::MAX as u128 {
                    u64::MAX
                } else {
                    millis_of(max_age) as u64
                },
                ..self@
            }),
    {
        let ms = max_age.as_millis();
        let ms64: u64 = if ms > u64::MAX as u128 {
            u64::MAX
        } else {
            ms as u64
        };
        self.with_max_age_ms(ms64)
    }

    /// The number of entries held.
    pub fn len(&self) -> (r: usize)
        ensures
            r == self@.entries.len(),
    {
        self.entries.len()
    }

    /// Whether no entry is held.
    pub fn is_empty(&self) -> (r: bool)
        ensures
            r == (self@.entries.len() == 0),
    {
        self.entries.len() == 0
    }

    /// The most entries the cache keeps.
    pub fn capacity(&self) -> (r: usize)
        ensures
            r == self@.capacity,
    {
        self.max_size
    }

    /// Drops every entry.
    pub fn clear(&mut self)
        requires
            old(self).wf(),
        ensures
            final(self).wf(),
            final(self)@ == (CacheView { entries: Seq::empty(), ..old(self)@ }),
    {
        self.entries.clear();
        assert(self@.entries =~= Seq::<EntryView>::empty());
    }

    /// The position of the first entry under `key`.
    fn find(&self, key: &str) -> (r: Option<usize>)
        ensures
            match r {
                Some(i) => key_index(self@.entries, key@) == i,
                None => key_index(self@.entries, key@) == -1,
            },
    {
        proof {
            lemma_entry_views(self.entries@);
        }
        let mut i: usize = 0;
        while i < self.entries.len()
            invariant
                i <= self.entries@.len(),
                entry_views(self.entries@).len() == self.entries@.len(),
                forall|j: int|
                    0 <= j < self.entries@.len() ==> #[trigger] entry_views(self.entries@)[j]
                        == self.entries@[j]@,
                forall|j: int| 0 <= j < i ==> self@.entries[j].key != key@,
            decreases self.entries@.len() - i,
        {
            if self.entries[i].key.as_str().eq(key) {
                proof {
                    lemma_key_index_found(self@.entries, key@, i as int);
                }
                return Some(i);
            }
            i = i + 1;
        }
        proof {
            lemma_key_index_absent(self@.entries, key@);
        }
        None
    }

    /// Removes the entry under `key` and returns its buffer.
    pub fn remove(&mut self, key: &str) -> (r: Option<AudioData>)
        requires
            old(self).wf(),
        ensures
            final(self).wf(),
            ({
                let s = old(self)@.entries;
                let i = key_index(s, key@);
                if i >= 0 {
                    &&& opt_view(r) == Some(s[i].data)
                    &&& final(self)@ == (CacheView { entries: s.remove(i), ..old(self)@ })
                } else {
                    &&& r is None
                    &&& final(self)@ == old(self)@
                }
            }),
    {
        proof {
            lemma_entry_views(self.entries@);
            lemma_key_index_range(self@.entries, key@);
        }
        match self.find(key) {
            Some(i) => {
                let e = self.entries.remove(i);
                proof {
                    lemma_entry_views(self.entries@);
                    assert(self@.entries =~= old(self)@.entries.remove(i as int));
                }
                Some(e.data)
            },
            None => None,
        }
    }

    /// The cache's clock in milliseconds since it was made, saturating.
    fn read_clock(&self) -> u64 {
        let ms = self.origin.elapsed().as_millis();
        if ms > u64::MAX as u128 {
            u64::MAX
        } else {
            ms as u64
        }
    }

    /// Moves the clock forward to `now`; a reading earlier than the clock
    /// leaves it as it is.
    fn advance_clock(&mut self, now: u64)
        requires
            old(self).wf(),
        ensures
            final(self).wf(),
            final(self)@ == (CacheView { clock: later(now, old(self)@.clock), ..old(self)@ }),
    {
        if now > self.clock {
            self.clock = now;
        }
    }

    /// Drops every entry that has expired at the cache's time.
    fn cleanup_expired(&mut self)
        requires
            old(self).wf(),
        ensures
            final(self).wf(),
            final(self)@ == (CacheView {
                entries: live_entries(old(self)@.entries, old(self)@.clock, old(self)@.max_age_ms),
                ..old(self)@
            }),
    {
        let t = self.clock;
        let max_age = self.max_age_ms;
        let ghost s = self@.entries;
        let ghost mut k: int = 0;
        proof {
            lemma_entry_views(self.entries@);
            assert(s.subrange(0, 0) =~= Seq::<EntryView>::empty());
            assert(s.subrange(0, s.len() as int) =~= s);
        }
        let mut i: usize = 0;
        while i < self.entries.len()
            invariant
                0 <= k <= s.len(),
                s == old(self)@.entries,
                cache_wf(old(self)@),
                t == old(self)@.clock,
                max_age == old(self)@.max_age_ms,
                self.max_size == old(self)@.capacity,
                self.max_age_ms == max_age,
                self.clock == t,
                i == live_entries(s.subrange(0, k), t, max_age).len(),
                self@.entries == live_entries(s.subrange(0, k), t, max_age) + s.subrange(
                    k,
                    s.len() as int,
                ),
            decreases self.entries@.len() - i,
        {
            proof {
                lemma_entry_views(self.entries@);
                assert(self@.entries[i as int] == s[k]);
                let next = s.subrange(0, k + 1);
                assert(next.drop_last() =~= s.subrange(0, k));
                assert(next.last() == s[k]);
                assert(s[k].access_count >= 1);
                assert(live_entries(next, t, max_age) == if expired(s[k], t, max_age) {
                    live_entries(s.subrange(0, k), t, max_age)
                } else {
                    live_entries(s.subrange(0, k), t, max_age).push(s[k])
                });
            }
            let ghost before = self@.entries;
            let created = self.entries[i].created_at;
            if t - created >= max_age {
                self.entries.remove(i);
                proof {
                    lemma_entry_views(self.entries@);
                    assert(self@.entries =~= before.remove(i as int));
                    assert(self@.entries =~= live_entries(s.subrange(0, k + 1), t, max_age)
                        + s.subrange(k + 1, s.len() as int));
                }
            } else {
                i = i + 1;
                proof {
                    assert(self@.entries =~= live_entries(s.subrange(0, k + 1), t, max_age)
                        + s.subrange(k + 1, s.len() as int));
                }
            }
            proof {
                k = k + 1;
            }
        }
        proof {
            lemma_entry_views(self.entries@);
            assert(k == s.len());
            assert(s.subrange(0, k) =~= s);
            assert(self@.entries =~= live_entries(s, t, max_age));
            lemma_live_entries_bounded(s, t, max_age);
            lemma_unique_live(s, t, max_age);
        }
    }

    /// Removes one entry that eviction may choose and returns where it stood;
    /// an empty cache is left as it is.
    fn evict_lru(&mut self) -> (r: Option<usize>)
        requires
            old(self).wf(),
        ensures
            final(self).wf(),
            old(self)@.entries.len() == 0 ==> r is None && final(self)@ == old(self)@,
            old(self)@.entries.len() > 0 ==> r is Some && is_victim(old(self)@.entries, r->0 as int)
                && final(self)@ == (CacheView {
                entries: old(self)@.entries.remove(r->0 as int),
                ..old(self)@
            }),
    {
        if self.entries.len() == 0 {
            return None;
        }
        proof {
            lemma_entry_views(self.entries@);
        }
        let ghost s = self@.entries;
        let mut best: usize = 0;
        let mut i: usize = 1;
        while i < self.entries.len()
            invariant
                s == self@.entries,
                entry_views(self.entries@).len() == self.entries@.len(),
                forall|j: int|
                    0 <= j < self.entries@.len() ==> #[trigger] entry_views(self.entries@)[j]
                        == self.entries@[j]@,
                best < i <= s.len(),
                forall|j: int| 0 <= j < i ==> evicts_before(s[best as int], #[trigger] s[j]),
            decreases s.len() - i,
        {
            let a = &self.entries[i];
            let b = &self.entries[best];
            if a.access_count < b.access_count || (a.access_count == b.access_count
                && a.last_accessed < b.last_accessed) {
                best = i;
            }
            i = i + 1;
        }
        self.entries.remove(best);
        proof {
            lemma_entry_views(self.entries@);
            assert(self@.entries =~= s.remove(best as int));
        }
        Some(best)
    }

    /// Reads the entry under `key` at time `now` (see `get_result`).
    pub fn get_at(&mut self, key: &str, now: u64) -> (r: Option<AudioData>)
        requires
            old(self).wf(),
        ensures
            final(self).wf(),
            get_result(old(self)@, final(self)@, key@, now, opt_view(r)),
    {
        self.advance_clock(now);
        self.cleanup_expired();
        let t = self.clock;
        proof {
            lemma_entry_views(self.entries@);
            lemma_key_index_range(self@.entries, key@);
        }
        match self.find(key) {
            Some(i) => {
                let ghost live = self@.entries;
                let mut e = self.entries.remove(i);
                if e.access_count < u32::MAX {
                    e.access_count = e.access_count + 1;
                }
                e.last_accessed = t;
                let d = e.data.duplicate();
                self.entries.insert(i, e);
                proof {
                    lemma_entry_views(self.entries@);
                    assert(self@.entries =~= live.update(i as int, touched(live[i as int], t)));
                }
                Some(d)
            },
            None => None,
        }
    }

    /// Reads the entry under `key` now (see `get_result`).
    pub fn get(&mut self, key: &str) -> (r: Option<AudioData>)
        requires
            old(self).wf(),
        ensures
            final(self).wf(),
            exists|now: u64| get_result(old(self)@, final(self)@, key@, now, opt_view(r)),
    {
        let now = self.read_clock();
        self.get_at(key, now)
    }

    /// Stores `data` under `key` at time `now` (see `insert_result`).
    pub fn insert_at(&mut self, key: String, data: AudioData, now: u64)
        requires
            old(self).wf(),
        ensures
            final(self).wf(),
            insert_result(old(self)@, final(self)@, key@, data@, now),
    {
        self.advance_clock(now);
        if self.max_size == 0 {
            return;
        }
        let t = self.clock;
        let ghost s0 = self@.entries;
        let ghost mut base = s0;
        let ghost mut victim: int = 0;
        if self.entries.len() >= self.max_size {
            let evicted = self.evict_lru();
            proof {
                victim = evicted->0 as int;
                base = s0.remove(victim);
            }
        }
        let e = CacheEntry { key, data, created_at: t, access_count: 1, last_accessed: t };
        let ghost ev = e@;
        proof {
            lemma_entry_views(self.entries@);
            lemma_key_index_range(self@.entries, ev.key);
        }
        match self.find(e.key.as_str()) {
            Some(i) => {
                self.entries.set(i, e);
            },
            None => {
                self.entries.push(e);
            },
        }
        proof {
            lemma_entry_views(self.entries@);
            assert(self@.entries =~= put(base, ev));
            lemma_unique_put(base, ev);
            assert(ev == fresh_entry(key@, data@, t));
        }
    }

    /// Stores `data` under `key` now (see `insert_result`).
    pub fn insert(&mut self, key: String, data: AudioData)
        requires
            old(self).wf(),
        ensures
            final(self).wf(),
            exists|now: u64| insert_result(old(self)@, final(self)@, key@, data@, now),
    {
        let now = self.read_clock();
        self.insert_at(key, data, now);
    }

    /// Sets the most entries kept, evicting one entry at a time while there
    /// are more.
    pub fn set_capacity(&mut self, capacity: usize)
        requires
            old(self).wf(),
        ensures
            final(self).wf(),
            final(self)@.capacity == capacity,
            final(self)@.max_age_ms == old(self)@.max_age_ms,
            final(self)@.clock == old(self)@.clock,
            final(self)@.entries.len() == if old(self)@.entries.len() <= capacity {
                old(self)@.entries.len()
            } else {
                capacity as nat
            },
            old(self)@.entries.len() <= capacity ==> final(self)@.entries == old(self)@.entries,
            forall|i: int|
                0 <= i < final(self)@.entries.len() ==> old(self)@.entries.contains(
                    #[trigger] final(self)@.entries[i],
                ),
            forall|j: int, i: int|
                0 <= j < old(self)@.entries.len() && !final(self)@.entries.contains(
                    old(self)@.entries[j],
                ) && 0 <= i < final(self)@.entries.len() ==> evicts_before(
                    #[trigger] old(self)@.entries[j],
                    #[trigger] final(self)@.entries[i],
                ),
    {
        let ghost s0 = self@.entries;
        let ghost mut removed: Seq<EntryView> = Seq::empty();
        if self.entries.len() > capacity {
            // While shrinking, the bound follows the entries down one
            // eviction at a time, so that the invariant holds throughout.
            self.max_size = self.entries.len();
            proof {
                assert forall|i: int| 0 <= i < self@.entries.len() implies s0.contains(
                    #[trigger] self@.entries[i],
                ) by {
                    assert(self@.entries[i] == s0[i]);
                }
            }
            while self.entries.len() > capacity
                invariant
                    self.wf(),
                    self.max_size >= self.entries@.len(),
                    self.entries@.len() >= capacity,
                    self@.max_age_ms == old(self)@.max_age_ms,
                    self@.clock == old(self)@.clock,
                    forall|i: int|
                        0 <= i < self@.entries.len() ==> s0.contains(#[trigger] self@.entries[i]),
                    forall|j: int|
                        0 <= j < s0.len() ==> self@.entries.contains(#[trigger] s0[j])
                            || removed.contains(s0[j]),
                    forall|r: int, i: int|
                        0 <= r < removed.len() && 0 <= i < self@.entries.len() ==> evicts_before(
                            #[trigger] removed[r],
                            #[trigger] self@.entries[i],
                        ),
                decreases self.entries@.len(),
            {
                let ghost before = self@.entries;
                let ghost before_removed = removed;
                let evicted = self.evict_lru();
                let ghost v = evicted->0 as int;
                self.max_size = self.entries.len();
                proof {
                    let e = before[v];
                    removed = removed.push(e);
                    assert forall|r: int, i: int|
                        0 <= r < removed.len() && 0 <= i < self@.entries.len() implies evicts_before(
                        #[trigger] removed[r],
                        #[trigger] self@.entries[i],
                    ) by {
                        let x = self@.entries[i];
                        let k = if i < v { i } else { i + 1 };
                        assert(x == before[k]);
                        if r < before_removed.len() {
                            assert(removed[r] == before_removed[r]);
                        } else {
                            assert(removed[r] == e);
                        }
                    }
                    assert forall|j: int| 0 <= j < s0.len() implies self@.entries.contains(
                        #[trigger] s0[j],
                    ) || removed.contains(s0[j]) by {
                        if before.contains(s0[j]) {
                            let k = choose|k: int| 0 <= k < before.len() && before[k] == s0[j];
                            if k == v {
                                assert(removed[removed.len() - 1] == s0[j]);
                            } else if k < v {
                                assert(self@.entries[k] == s0[j]);
                            } else {
                                assert(self@.entries[k - 1] == s0[j]);
                            }
                        } else {
                            let r = choose|r: int| 0 <= r < before_removed.len() && before_removed[r] == s0[j];
                            assert(removed[r] == s0[j]);
                        }
                    }
                    assert forall|i: int| 0 <= i < self@.entries.len() implies s0.contains(
                        #[trigger] self@.entries[i],
                    ) by {
                        assert(self@.entries[i] == before[i] || self@.entries[i] == before[i + 1]);
                        assert(s0.contains(before[i]));
                        assert(s0.contains(before[i + 1]));
                    }
                }
            }
        } else {
            proof {
                assert forall|i: int| 0 <= i < self@.entries.len() implies s0.contains(
                    #[trigger] self@.entries[i],
                ) by {
                    assert(self@.entries[i] == s0[i]);
                }
                assert forall|j: int| 0 <= j < s0.len() implies self@.entries.contains(
                    #[trigger] s0[j],
                ) by {
                    assert(self@.entries[j] == s0[j]);
                }
            }
        }
        self.max_size = capacity;
    }

    /// Stores each item at the cache's current time, in order, while the
    /// cache is below capacity; stops at the first item that finds it full.
    /// Nothing is evicted: every item is stored into a cache below capacity.
    pub fn warmup(&mut self, common_texts: Vec<(String, AudioData)>)
        requires
            old(self).wf(),
        ensures
            final(self).wf(),
            final(self)@.capacity == old(self)@.capacity,
            final(self)@.max_age_ms == old(self)@.max_age_ms,
            exists|m: int|
                0 <= m <= common_texts@.len() && final(self)@.entries == put_all(
                    old(self)@.entries,
                    item_views(common_texts@).take(m),
                    final(self)@.clock,
                ) && (forall|k: int|
                    0 <= k < m ==> (#[trigger] put_all(
                        old(self)@.entries,
                        item_views(common_texts@).take(k),
                        final(self)@.clock,
                    )).len() < final(self)@.capacity) && (m == common_texts@.len()
                    || final(self)@.entries.len() >= final(self)@.capacity),
    {
        let now = self.read_clock();
        self.advance_clock(now);
        let t = self.clock;
        let ghost all = item_views(common_texts@);
        let ghost s0 = self@.entries;
        let mut items = common_texts;
        let ghost mut m: int = 0;
        proof {
            assert(all.take(0) =~= Seq::<(Seq<char>, AudioDataView)>::empty());
            assert(item_views(items@).subrange(0, items@.len() as int) =~= all);
        }
        while items.len() > 0 && self.entries.len() < self.max_size
            invariant
                self.wf(),
                self@.clock == t,
                self@.capacity == old(self)@.capacity,
                self@.max_age_ms == old(self)@.max_age_ms,
                0 <= m <= all.len(),
                item_views(items@) == all.subrange(m, all.len() as int),
                self@.entries == put_all(s0, all.take(m), t),
                forall|k: int|
                    0 <= k < m ==> (#[trigger] put_all(s0, all.take(k), t)).len()
                        < self@.capacity,
            decreases items@.len(),
        {
            let ghost prev = items@;
            let (key, data) = items.remove(0);
            let ghost before = self@;
            proof {
                assert(put_all(s0, all.take(m), t).len() < self@.capacity);
                assert(item_views(prev).len() == prev.len());
                assert(item_views(prev) == all.subrange(m, all.len() as int));
                assert(all.subrange(m, all.len() as int)[0] == all[m]);
                assert(item_views(prev)[0] == all[m]);
                assert(all[m] == (key@, data@));
                assert(item_views(items@) =~= item_views(prev).drop_first());
            }
            self.insert_at(key, data, t);
            proof {
                assert(later(t, before.clock) == t);
                assert(all.take(m + 1).drop_last() =~= all.take(m));
                assert(all.take(m + 1).last() == all[m]);
                m = m + 1;
                assert(item_views(items@) =~= all.subrange(m, all.len() as int));
            }
        }
    }

    /// The summary of the cache at time `now` (or at its clock, where that
    /// is later).
    pub fn stats_at(&self, now: u64) -> (r: CacheStats)
        requires
            self.wf(),
        ensures
            r == stats_of(self@, later(now, self@.clock)),
    {
        let t = if now > self.clock {
            now
        } else {
            self.clock
        };
        let ghost s = self@.entries;
        proof {
            lemma_entry_views(self.entries@);
        }
        let mut reads: u64 = 0;
        let mut bytes: u64 = 0;
        let mut age: u64 = 0;
        let mut i: usize = 0;
        while i < self.entries.len()
            invariant
                s == self@.entries,
                cache_wf(self@),
                t >= self@.clock,
                i <= s.len(),
                entry_views(self.entries@).len() == self.entries@.len(),
                forall|j: int|
                    0 <= j < self.entries@.len() ==> #[trigger] entry_views(self.entries@)[j]
                        == self.entries@[j]@,
                reads == capped(total_reads(s.subrange(0, i as int))),
                bytes == capped(total_bytes(s.subrange(0, i as int))),
                age == capped(total_age(s.subrange(0, i as int), t)),
            decreases s.len() - i,
        {
            let e = &self.entries[i];
            proof {
                let next = s.subrange(0, i + 1);
                assert(next.drop_last() =~= s.subrange(0, i as int));
                assert(next.last() == s[i as int]);
                assert(s[i as int].access_count >= 1);
            }
            reads = reads.saturating_add(e.access_count as u64);
            bytes = bytes.saturating_add(e.data.data.len() as u64);
            age = age.saturating_add(t - e.created_at);
            i = i + 1;
        }
        proof {
            assert(s.subrange(0, i as int) =~= s);
            lemma_total_reads_at_least_len(s);
        }
        let n = self.entries.len();
        let hit_rate = if n == 0 {
            HitRate { hits: 0, accesses: 0 }
        } else {
            HitRate { hits: reads - n as u64, accesses: reads }
        };
        CacheStats {
            entries: n,
            capacity: self.max_size,
            total_accesses: reads,
            hit_rate,
            total_size_bytes: bytes,
            average_age_ms: if n == 0 {
                0
            } else {
                age / n as u64
            },
        }
    }

    /// The summary of the cache now.
    pub fn stats(&self) -> (r: CacheStats)
        requires
            self.wf(),
        ensures
            exists|now: u64| r == stats_of(self@, later(now, self@.clock)),
    {
        let now = self.read_clock();
        self.stats_at(now)
    }

    /// The hit rate of the cache (see `hit_rate_of`).
    pub fn hit_rate(&self) -> (r: HitRate)
        requires
            self.wf(),
        ensures
            r == hit_rate_of(self@.entries),
    {
        self.stats_at(self.clock).hit_rate
    }

    fn score_of(e: &CacheEntry, by_recency: bool) -> (r: u64)
        ensures
            r == score(e@, by_recency),
    {
        if by_recency {
            e.last_accessed
        } else {
            e.access_count as u64
        }
    }

    /// The positions of the top `limit` entries by score.
    fn top_by(&self, limit: usize, by_recency: bool) -> (r: Vec<usize>)
        ensures
            top_selection(self@.entries, r@, limit, by_recency),
    {
        proof {
            lemma_entry_views(self.entries@);
        }
        let ghost s = self@.entries;
        let n = self.entries.len();
        let mut taken: Vec<bool> = Vec::new();
        let mut k: usize = 0;
        while k < n
            invariant
                k <= n,
                n == s.len(),
                taken@.len() == k,
                forall|j: int| 0 <= j < k ==> !taken@[j],
            decreases n - k,
        {
            taken.push(false);
            k = k + 1;
        }
        let mut chosen: Vec<usize> = Vec::new();
        while chosen.len() < limit
            invariant
                s == self@.entries,
                n == s.len(),
                entry_views(self.entries@).len() == self.entries@.len(),
                forall|j: int|
                    0 <= j < self.entries@.len() ==> #[trigger] entry_views(self.entries@)[j]
                        == self.entries@[j]@,
                taken@.len() == n,
                forall|j: usize| 0 <= j < n ==> (taken@[j as int] <==> #[trigger] chosen@.contains(j)),
                chosen@.len() <= limit,
                forall|p: int| 0 <= p < chosen@.len() ==> #[trigger] chosen@[p] < n,
                forall|p: int, q: int| 0 <= p < q < chosen@.len() ==> chosen@[p] != chosen@[q],
                forall|p: int, q: int|
                    0 <= p < q < chosen@.len() ==> score(s[chosen@[p] as int], by_recency) >= score(
                        s[chosen@[q] as int],
                        by_recency,
                    ),
                forall|j: usize, p: int|
                    0 <= j < n && !chosen@.contains(j) && 0 <= p < chosen@.len() ==> score(
                        #[trigger] s[j as int],
                        by_recency,
                    ) <= score(s[#[trigger] chosen@[p] as int], by_recency),
            decreases limit - chosen@.len(),
        {
            let mut best: Option<usize> = None;
            let mut j: usize = 0;
            while j < n
                invariant
                    j <= n,
                    n == s.len(),
                    taken@.len() == n,
                    entry_views(self.entries@).len() == self.entries@.len(),
                    forall|m: int|
                        0 <= m < self.entries@.len() ==> #[trigger] entry_views(self.entries@)[m]
                            == self.entries@[m]@,
                    s == self@.entries,
                    match best {
                        Some(b) => b < j && !taken@[b as int] && forall|m: int|
                            0 <= m < j && !taken@[m] ==> score(#[trigger] s[m], by_recency) <= score(
                                s[b as int],
                                by_recency,
                            ),
                        None => forall|m: int| 0 <= m < j ==> #[trigger] taken@[m],
                    },
                decreases n - j,
            {
                if !taken[j] {
                    match best {
                        Some(b) => {
                            if Self::score_of(&self.entries[j], by_recency) > Self::score_of(
                                &self.entries[b],
                                by_recency,
                            ) {
                                best = Some(j);
                            }
                        },
                        None => {
                            best = Some(j);
                        },
                    }
                }
                j = j + 1;
            }
            match best {
                Some(b) => {
                    let ghost before = chosen@;
                    chosen.push(b);
                    taken.set(b, true);
                    proof {
                        assert forall|x: usize| 0 <= x < n implies (taken@[x as int]
                            <==> #[trigger] chosen@.contains(x)) by {
                            if x == b {
                                assert(chosen@[chosen@.len() - 1] == b);
                            } else {
                                if chosen@.contains(x) {
                                    let p = choose|p: int| 0 <= p < chosen@.len() && chosen@[p] == x;
                                    assert(before[p] == x);
                                }
                                if before.contains(x) {
                                    let p = choose|p: int| 0 <= p < before.len() && before[p] == x;
                                    assert(chosen@[p] == x);
                                }
                            }
                        }
                        assert forall|p: int, q: int| 0 <= p < q < chosen@.len() implies chosen@[p]
                            != chosen@[q] by {
                            if q == chosen@.len() - 1 {
                                assert(before.contains(chosen@[p]));
                            }
                        }
                        assert forall|p: int, q: int| 0 <= p < q < chosen@.len() implies score(
                            s[chosen@[p] as int],
                            by_recency,
                        ) >= score(s[chosen@[q] as int], by_recency) by {
                            if q == chosen@.len() - 1 {
                                assert(!before.contains(b));
                                assert(score(s[b as int], by_recency) <= score(
                                    s[before[p] as int],
                                    by_recency,
                                ));
                            }
                        }
                        assert forall|x: usize, p: int|
                            0 <= x < n && !chosen@.contains(x) && 0 <= p < chosen@.len() implies score(
                            #[trigger] s[x as int],
                            by_recency,
                        ) <= score(s[#[trigger] chosen@[p] as int], by_recency) by {
                            assert(!before.contains(x) || chosen@.contains(x));
                            if !before.contains(x) {
                                assert(!taken@[x as int] || x == b);
                                if p == chosen@.len() - 1 {
                                    assert(x != b);
                                } else {
                                    assert(chosen@[p] == before[p]);
                                }
                            }
                        }
                    }
                },
                None => {
                    proof {
                        assert forall|x: usize| 0 <= x < s.len() implies #[trigger] chosen@.contains(x) by {
                            assert(taken@[x as int]);
                        }
                    }
                    return chosen;
                },
            }
        }
        chosen
    }

    /// The keys and read counts of the `limit` most read entries, most read
    /// first (see `top_selection`).
    pub fn get_hot_entries(&self, limit: usize) -> (r: Vec<(String, u32)>)
        ensures
            exists|idx: Seq<usize>|
                {
                    &&& top_selection(self@.entries, idx, limit, false)
                    &&& r@.len() == idx.len()
                    &&& forall|p: int|
                        0 <= p < idx.len() ==> (#[trigger] r@[p]).0@ == self@.entries[idx[p] as int].key
                            && r@[p].1 == self@.entries[idx[p] as int].access_count
                },
    {
        let idx = self.top_by(limit, false);
        proof {
            lemma_entry_views(self.entries@);
        }
        let mut r: Vec<(String, u32)> = Vec::new();
        let mut p: usize = 0;
        while p < idx.len()
            invariant
                p <= idx@.len(),
                r@.len() == p,
                top_selection(self@.entries, idx@, limit, false),
                entry_views(self.entries@).len() == self.entries@.len(),
                forall|j: int|
                    0 <= j < self.entries@.len() ==> #[trigger] entry_views(self.entries@)[j]
                        == self.entries@[j]@,
                forall|q: int|
                    0 <= q < p ==> (#[trigger] r@[q]).0@ == self@.entries[idx@[q] as int].key
                        && r@[q].1 == self@.entries[idx@[q] as int].access_count,
            decreases idx@.len() - p,
        {
            let e = &self.entries[idx[p]];
            r.push((e.key.clone(), e.access_count));
            p = p + 1;
        }
        r
    }

    /// The keys and last-read times of the `limit` most recently read
    /// entries, most recent first (see `top_selection`).
    pub fn get_recent_entries(&self, limit: usize) -> (r: Vec<(String, u64)>)
        ensures
            exists|idx: Seq<usize>|
                {
                    &&& top_selection(self@.entries, idx, limit, true)
                    &&& r@.len() == idx.len()
                    &&& forall|p: int|
                        0 <= p < idx.len() ==> (#[trigger] r@[p]).0@ == self@.entries[idx[p] as int].key
                            && r@[p].1 == self@.entries[idx[p] as int].last_accessed
                },
    {
        let idx = self.top_by(limit, true);
        proof {
            lemma_entry_views(self.entries@);
        }
        let mut r: Vec<(String, u64)> = Vec::new();
        let mut p: usize = 0;
        while p < idx.len()
            invariant
                p <= idx@.len(),
                r@.len() == p,
                top_selection(self@.entries, idx@, limit, true),
                entry_views(self.entries@).len() == self.entries@.len(),
                forall|j: int|
                    0 <= j < self.entries@.len() ==> #[trigger] entry_views(self.entries@)[j]
                        == self.entries@[j]@,
                forall|q: int|
                    0 <= q < p ==> (#[trigger] r@[q]).0@ == self@.entries[idx@[q] as int].key
                        && r@[q].1 == self@.entries[idx@[q] as int].last_accessed,
            decreases idx@.len() - p,
        {
            let e = &self.entries[idx[p]];
            r.push((e.key.clone(), e.last_accessed));
            p = p + 1;
        }
        r
    }
}

} // verus!