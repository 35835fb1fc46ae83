//! The in-memory tier of the edge segment cache and its hit/miss statistics.
//! The distributed tier (Redis) is driven by the caller around these steps.

use vstd::prelude::*;
use dashmap::DashMap;
use lru::LruCache;
use crate::outside::{
    after_get, after_pop, after_put, is_entry_snapshot, key_pos, lru_capacity, lru_entries, lru_get,
    lru_keys, lru_new, lru_ok, lru_pop, lru_put,
};
use crate::tables::{stats_table, stats_table_entries, stats_table_get, stats_table_insert, stats_table_new};
use crate::text::{contains_seq, str_contains};

verus! {

/// Hit, miss and eviction counts of one cache key.
#[derive(Debug, Clone, Copy)]
pub struct CacheStats {
    pub hits: u64,
    pub misses: u64,
    pub evictions: u64,
}

impl Default for CacheStats {
    fn default() -> (s: Self)
        ensures
            s == (CacheStats { hits: 0, misses: 0, evictions: 0 }),
    {
        CacheStats { hits: 0, misses: 0, evictions: 0 }
    }
}

/// Counts of a key, all zero for a key never seen.
pub open spec fn stats_of(m: Map<Seq<char>, CacheStats>, k: Seq<char>) -> CacheStats {
    if m.contains_key(k) { m[k] } else { CacheStats { hits: 0, misses: 0, evictions: 0 } }
}

/// `n + 1`, saturating.
pub open spec fn bump(n: u64) -> u64 {
    if n == u64::MAX { n } else { (n + 1) as u64 }
}

/// Statistics after a hit on `k`.
pub open spec fn with_hit(m: Map<Seq<char>, CacheStats>, k: Seq<char>) -> Map<Seq<char>, CacheStats> {
    m.insert(k, CacheStats { hits: bump(stats_of(m, k).hits), ..stats_of(m, k) })
}

/// Statistics after a miss on `k`.
pub open spec fn with_miss(m: Map<Seq<char>, CacheStats>, k: Seq<char>) -> Map<Seq<char>, CacheStats> {
    m.insert(k, CacheStats { misses: bump(stats_of(m, k).misses), ..stats_of(m, k) })
}

/// The entries whose key does not contain `pattern`, in order.
pub open spec fn drop_matching(es: Seq<(Seq<char>, Seq<u8>)>, pattern: Seq<char>) -> Seq<(Seq<char>, Seq<u8>)>
    decreases es.len(),
{
    if es.len() == 0 {
        Seq::empty()
    } else {
        let r = drop_matching(es.drop_last(), pattern);
        if contains_seq(es.last().0, pattern) { r } else { r.push(es.last()) }
    }
}

/// The value stored under `k`, if any.
pub open spec fn lookup(es: Seq<(Seq<char>, Seq<u8>)>, k: Seq<char>) -> Option<Seq<u8>> {
    if key_pos(es, k) >= 0 { Some(es[key_pos(es, k)].1) } else { None }
}

/// `key_pos` finds the first entry with the key, and nothing when no entry has it.
pub proof fn lemma_key_pos(es: Seq<(Seq<char>, Seq<u8>)>, k: Seq<char>)
    ensures
        key_pos(es, k) < es.len(),
        key_pos(es, k) >= 0 ==> es[key_pos(es, k)].0 == k && forall|t: int| 0 <= t < key_pos(es, k) ==> #[trigger] es[t].0 != k,
        key_pos(es, k) < 0 ==> key_pos(es, k) == -1 && forall|t: int| 0 <= t < es.len() ==> #[trigger] es[t].0 != k,
    decreases es.len(),
{
    if es.len() > 0 {
        let d = es.drop_last();
        lemma_key_pos(d, k);
        assert forall|t: int| 0 <= t < d.len() implies #[trigger] es[t] == d[t] by {}
    }
}

/// The entry at position `j` is the first with its key.
pub proof fn lemma_key_pos_at(es: Seq<(Seq<char>, Seq<u8>)>, k: Seq<char>, j: int)
    requires
        0 <= j < es.len(),
        es[j].0 == k,
        forall|t: int| 0 <= t < j ==> #[trigger] es[t].0 != k,
    ensures
        key_pos(es, k) == j,
{
    lemma_key_pos(es, k);
    if key_pos(es, k) >= 0 && key_pos(es, k) != j {
        if key_pos(es, k) < j {
            assert(es[key_pos(es, k)].0 != k);
        } else {
            assert(es[j].0 != k);
        }
    }
}

/// Storing, looking up and removing keep keys distinct and within capacity.
pub proof fn lemma_lru_ok_preserved(es: Seq<(Seq<char>, Seq<u8>)>, cap: nat, k: Seq<char>, v: Seq<u8>)
    requires
        lru_ok(es, cap),
    ensures
        lru_ok(after_put(es, cap, k, v), cap),
        lru_ok(after_get(es, k), cap),
        lru_ok(after_pop(es, k), cap),
{
    lemma_key_pos(es, k);
    let i = key_pos(es, k);
    let rest = if i >= 0 { es.remove(i) } else if es.len() == cap { es.drop_last() } else { es };
    assert forall|a: int, b: int| 0 <= a < b < rest.len() implies #[trigger] rest[a].0 != #[trigger] rest[b].0 by {
        if i >= 0 {
            let a2 = if a < i { a } else { a + 1 };
            let b2 = if b < i { b } else { b + 1 };
            assert(rest[a] == es[a2] && rest[b] == es[b2]);
        } else {
            assert(rest[a] == es[a] && rest[b] == es[b]);
        }
    }
    assert forall|t: int| 0 <= t < rest.len() implies #[trigger] rest[t].0 != k by {
        if i >= 0 {
            let t2 = if t < i { t } else { t + 1 };
            assert(rest[t] == es[t2]);
            assert(es[t2].0 != es[i].0);
        } else {
            assert(rest[t] == es[t]);
        }
    }
    let put = after_put(es, cap, k, v);
    assert(put =~= seq![(k, v)] + rest);
    assert forall|a: int, b: int| 0 <= a < b < put.len() implies #[trigger] put[a].0 != #[trigger] put[b].0 by {
        if a == 0 {
            assert(put[b] == rest[b - 1]);
        } else {
            assert(put[a] == rest[a - 1] && put[b] == rest[b - 1]);
        }
    }
    if i >= 0 {
        let g = after_get(es, k);
        assert(g =~= seq![es[i]] + rest);
        assert forall|a: int, b: int| 0 <= a < b < g.len() implies #[trigger] g[a].0 != #[trigger] g[b].0 by {
            if a == 0 {
                assert(g[b] == rest[b - 1]);
            } else {
                assert(g[a] == rest[a - 1] && g[b] == rest[b - 1]);
            }
        }
        assert(after_pop(es, k) == rest);
    }
}

/// What a write stores is what the next read of the same key returns.
pub proof fn lemma_put_then_lookup(es: Seq<(Seq<char>, Seq<u8>)>, cap: nat, k: Seq<char>, v: Seq<u8>)
    ensures
        lookup(after_put(es, cap, k, v), k) == Some(v),
{
    let put = after_put(es, cap, k, v);
    lemma_key_pos_at(put, k, 0);
}

/// The in-memory segment cache of an edge node, with per-key statistics.
pub struct EdgeCache {
    memory_cache: LruCache<String, Vec<u8>>,
    stats: DashMap<String, CacheStats>,
}

impl EdgeCache {
    /// Cached entries, most recently used first.
    pub closed spec fn memory(&self) -> Seq<(Seq<char>, Seq<u8>)> {
        lru_entries(self.memory_cache)
    }

    /// Number of entries the cache holds before evicting.
    pub closed spec fn capacity(&self) -> nat {
        lru_capacity(self.memory_cache)
    }

    /// Hit/miss counts per key.
    pub closed spec fn stats_view(&self) -> Map<Seq<char>, CacheStats> {
        stats_table(self.stats)
    }

    pub closed spec fn wf(&self) -> bool {
        lru_ok(self.memory(), self.capacity())
    }

    /// An empty cache of `memory_capacity` entries.
    pub fn new(memory_capacity: usize) -> (c: Self)
        requires
            memory_capacity > 0,
        ensures
            c.wf(),
            c.memory().len() == 0,
            c.capacity() == memory_capacity,
            c.stats_view().dom() == Set::<Seq<char>>::empty(),
    {
        let c = EdgeCache { memory_cache: lru_new(memory_capacity), stats: stats_table_new() };
        assert(c.stats_view().dom() =~= Set::empty());
        c
    }

    fn record_hit(&mut self, key: &str)
        ensures
            final(self).stats_view() == with_hit(old(self).stats_view(), key@),
            final(self).memory() == old(self).memory(),
            final(self).capacity() == old(self).capacity(),
    {
        let mut s = match stats_table_get(&self.stats, key) {
            Some(s) => s,
            None => CacheStats::default(),
        };
        s.hits = s.hits.saturating_add(1);
        stats_table_insert(&mut self.stats, String::from_str(key), s);
    }

    fn record_miss(&mut self, key: &str)
        ensures
            final(self).stats_view() == with_miss(old(self).stats_view(), key@),
            final(self).memory() == old(self).memory(),
            final(self).capacity() == old(self).capacity(),
    {
        let mut s = match stats_table_get(&self.stats, key) {
            Some(s) => s,
            None => CacheStats::default(),
        };
        s.misses = s.misses.saturating_add(1);
        stats_table_insert(&mut self.stats, String::from_str(key), s);
    }

    /// First step of a lookup: the in-memory tier. A hit is counted and moves the
    /// entry to the front; on a miss nothing is counted yet.
    pub fn get_cached(&mut self, key: &str) -> (r: Option<Vec<u8>>)
        requires
            old(self).wf(),
        ensures
            final(self).wf(),
            r matches Some(v) ==> lookup(old(self).memory(), key@) == Some(v@),
            r is None ==> lookup(old(self).memory(), key@) is None,
            final(self).memory() == after_get(old(self).memory(), key@),
            final(self).capacity() == old(self).capacity(),
            r is Some ==> final(self).stats_view() == with_hit(old(self).stats_view(), key@),
            r is None ==> final(self).stats_view() == old(self).stats_view(),
    {
        proof {
            lemma_lru_ok_preserved(self.memory(), self.capacity(), key@, Seq::empty());
        }
        let r = lru_get(&mut self.memory_cache, key);
        if r.is_some() {
            self.record_hit(key);
        }
        r
    }

    /// Last step of a lookup that missed in memory, given what the distributed tier
    /// returned: a found value is promoted into memory and counted as a hit; otherwise
    /// a miss is counted.
    pub fn finish_lookup(&mut self, key: &str, remote: Option<Vec<u8>>) -> (r: Option<Vec<u8>>)
        requires
            old(self).wf(),
        ensures
            final(self).wf(),
            r == remote,
            remote matches Some(v) ==> final(self).memory() == after_put(old(self).memory(), old(self).capacity(), key@, v@)
                && final(self).stats_view() == with_hit(old(self).stats_view(), key@),
            remote is None ==> final(self).memory() == old(self).memory()
                && final(self).stats_view() == with_miss(old(self).stats_view(), key@),
            final(self).capacity() == old(self).capacity(),
    {
        match remote {
            Some(data) => {
                proof {
                    lemma_lru_ok_preserved(self.memory(), self.capacity(), key@, data@);
                }
                let copy = data.clone();
                assert(copy@ =~= data@);
                lru_put(&mut self.memory_cache, String::from_str(key), copy);
                self.record_hit(key);
                Some(data)
            },
            None => {
                self.record_miss(key);
                None
            },
        }
    }

    /// Stores `data` under `key` in memory (the caller mirrors it to the distributed tier).
    pub fn set(&mut self, key: &str, data: Vec<u8>)
        requires
            old(self).wf(),
        ensures
            final(self).wf(),
            final(self).memory() == after_put(old(self).memory(), old(self).capacity(), key@, data@),
            lookup(final(self).memory(), key@) == Some(data@),
            final(self).capacity() == old(self).capacity(),
            final(self).stats_view() == old(self).stats_view(),
    {
        proof {
            lemma_lru_ok_preserved(self.memory(), self.capacity(), key@, data@);
            lemma_put_then_lookup(self.memory(), self.capacity(), key@, data@);
        }
        lru_put(&mut self.memory_cache, String::from_str(key), data);
    }

    /// Drops from memory every entry whose key contains `pattern`, keeping the others
    /// in order (the caller handles the distributed tier).
    pub fn invalidate(&mut self, pattern: &str)
        requires
            old(self).wf(),
        ensures
            final(self).wf(),
            final(self).memory() == drop_matching(old(self).memory(), pattern@),
            final(self).capacity() == old(self).capacity(),
            final(self).stats_view() == old(self).stats_view(),
    {
        let keys = lru_keys(&self.memory_cache);
        let ghost orig = self.memory();
        let ghost cap = self.capacity();
        let ghost names = keys@.map_values(|s: String| s@);
        assert(names == orig.map_values(|e: (Seq<char>, Seq<u8>)| e.0));
        assert(keys@.len() == orig.len()) by {
            assert(names.len() == orig.map_values(|e: (Seq<char>, Seq<u8>)| e.0).len());
        }
        assert forall|t: int| 0 <= t < orig.len() implies #[trigger] keys@[t]@ == orig[t].0 by {
            assert(names[t] == keys@[t]@);
            assert(orig.map_values(|e: (Seq<char>, Seq<u8>)| e.0)[t] == orig[t].0);
        }
        let mut i: usize = 0;
        while i < keys.len()
            invariant
                i <= keys@.len(),
                keys@.len() == orig.len(),
                forall|t: int| 0 <= t < orig.len() ==> #[trigger] keys@[t]@ == orig[t].0,
                lru_ok(orig, cap),
                self.capacity() == cap,
                self.memory() == drop_matching(orig.take(i as int), pattern@) + orig.skip(i as int),
                self.stats_view() == old(self).stats_view(),
            decreases keys@.len() - i,
        {
            let ghost d = drop_matching(orig.take(i as int), pattern@);
            proof {
                assert(orig.take(i + 1).drop_last() =~= orig.take(i as int));
                assert(orig.take(i + 1).last() == orig[i as int]);
                lemma_drop_matching_from(orig.take(i as int), pattern@);
            }
            if str_contains(keys[i].as_str(), pattern) {
                proof {
                    let cur = self.memory();
                    assert forall|t: int| 0 <= t < d.len() implies #[trigger] cur[t].0 != orig[i as int].0 by {
                        assert(cur[t] == d[t]);
                        let u = choose|u: int| 0 <= u < i && d[t] == orig.take(i as int)[u];
                        assert(orig[u].0 != orig[i as int].0);
                    }
                    assert(cur[d.len() as int] == orig[i as int]);
                    lemma_key_pos_at(cur, orig[i as int].0, d.len() as int);
                    assert(cur.remove(d.len() as int) =~= d + orig.skip(i + 1));
                }
                let _ = lru_pop(&mut self.memory_cache, keys[i].as_str());
            } else {
                proof {
                    assert(d + orig.skip(i as int) =~= d.push(orig[i as int]) + orig.skip(i + 1));
                }
            }
            i = i + 1;
        }
        proof {
            assert(orig.take(i as int) =~= orig);
            assert(orig.skip(i as int) =~= Seq::<(Seq<char>, Seq<u8>)>::empty());
            assert(self.memory() =~= drop_matching(orig, pattern@));
            lemma_drop_matching_ok(orig, cap, pattern@);
        }
    }

    /// Hit/miss counts per key, in the table's iteration order.
    pub fn get_stats(&self) -> (s: Vec<(String, CacheStats)>)
        ensures
            is_entry_snapshot(self.stats_view(), s@),
    {
        stats_table_entries(&self.stats)
    }
}

/// Each entry kept by `drop_matching` is an entry of the input.
pub proof fn lemma_drop_matching_from(es: Seq<(Seq<char>, Seq<u8>)>, pattern: Seq<char>)
    ensures
        drop_matching(es, pattern).len() <= es.len(),
        forall|t: int| 0 <= t < drop_matching(es, pattern).len() ==>
            exists|u: int| 0 <= u < es.len() && #[trigger] drop_matching(es, pattern)[t] == es[u],
    decreases es.len(),
{
    if es.len() > 0 {
        let d = es.drop_last();
        lemma_drop_matching_from(d, pattern);
        let r = drop_matching(es, pattern);
        assert forall|t: int| 0 <= t < r.len() implies exists|u: int| 0 <= u < es.len() && #[trigger] r[t] == es[u] by {
            if t < drop_matching(d, pattern).len() {
                let u = choose|u: int| 0 <= u < d.len() && drop_matching(d, pattern)[t] == d[u];
                assert(r[t] == es[u]);
            } else {
                assert(r[t] == es[es.len() - 1]);
            }
        }
    }
}

/// Dropping entries keeps keys distinct and within capacity.
pub proof fn lemma_drop_matching_ok(es: Seq<(Seq<char>, Seq<u8>)>, cap: nat, pattern: Seq<char>)
    requires
        lru_ok(es, cap),
    ensures
        lru_ok(drop_matching(es, pattern), cap),
    decreases es.len(),
{
    if es.len() > 0 {
        let d = es.drop_last();
        assert(lru_ok(d, cap));
        lemma_drop_matching_ok(d, cap, pattern);
        lemma_drop_matching_from(d, pattern);
        let rd = drop_matching(d, pattern);
        let r = drop_matching(es, pattern);
        if !contains_seq(es.last().0, pattern) {
            assert forall|a: int, b: int| 0 <= a < b < r.len() implies #[trigger] r[a].0 != #[trigger] r[b].0 by {
                if b == r.len() - 1 {
                    let u = choose|u: int| 0 <= u < d.len() && rd[a] == d[u];
                    assert(r[a] == d[u]);
                    assert(es[u].0 != es[es.len() - 1].0);
                } else {
                    assert(r[a] == rd[a] && r[b] == rd[b]);
                }
            }
        }
    }
}

} // verus!
