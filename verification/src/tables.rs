//! Contents of the `DashMap` tables the library keeps, and the trusted
//! wrappers for the `DashMap` methods it calls on each of them. A table's
//! contents are a map from the key (a string key by its characters) to the stored value.

use vstd::prelude::*;
use dashmap::DashMap;
use crate::outside::{entry_deep_views, entry_views, is_entry_snapshot};
use crate::domain::edge_node::EdgeNode;
use crate::cdn::cache::CacheStats;
use crate::domain::stream::{AdaptiveStream, AdaptiveStreamView, StreamMetadata};
use crate::streaming::webrtc::{ConnectionView, WebRTCConnection};

verus! {

// --- edge nodes keyed by node id ---

/// Contents of a `DashMap<String, EdgeNode>`.
pub uninterp spec fn node_table(m: DashMap<String, EdgeNode>) -> Map<Seq<char>, EdgeNode>;

/// Calls `DashMap::new`: an empty map.
#[verifier::external_body]
pub fn node_table_new() -> (fresh: DashMap<String, EdgeNode>)
    ensures
        node_table(fresh).dom() == Set::<Seq<char>>::empty(),
{
    DashMap::new()
}

/// Calls `DashMap::get` and clones the stored value, if any.
#[verifier::external_body]
pub fn node_table_get(m: &DashMap<String, EdgeNode>, key: &str) -> (r: Option<EdgeNode>)
    ensures
        r is Some <==> node_table(*m).contains_key(key@),
        r matches Some(v) ==> v == node_table(*m)[key@],
{
    m.get(key).map(|e| e.value().clone())
}

/// Calls `DashMap::insert`: the key now maps to the value.
#[verifier::external_body]
pub fn node_table_insert(m: &mut DashMap<String, EdgeNode>, key: String, value: EdgeNode)
    ensures
        node_table(*final(m)) == node_table(*old(m)).insert(key@, value),
{
    m.insert(key, value);
}

/// Calls `DashMap::remove`: drops the key's entry and hands back its value.
#[verifier::external_body]
pub fn node_table_remove(m: &mut DashMap<String, EdgeNode>, key: &str) -> (r: Option<EdgeNode>)
    ensures
        node_table(*final(m)) == node_table(*old(m)).remove(key@),
        r is Some <==> node_table(*old(m)).contains_key(key@),
        r matches Some(v) ==> v == node_table(*old(m))[key@],
{
    m.remove(key).map(|(_, v)| v)
}

/// Walks `DashMap::iter` and clones each entry: every entry once, in the
/// map's iteration order, which depends on hashing and is not promised.
#[verifier::external_body]
pub fn node_table_entries(m: &DashMap<String, EdgeNode>) -> (s: Vec<(String, EdgeNode)>)
    ensures
        is_entry_snapshot(node_table(*m), s@),
{
    m.iter().map(|e| (e.key().clone(), e.value().clone())).collect()
}

// --- node ids of each region, keyed by region name ---

/// Contents of a `DashMap<String, Vec<String>>`.
pub uninterp spec fn region_table(m: DashMap<String, Vec<String>>) -> Map<Seq<char>, Seq<String>>;

/// Calls `DashMap::new`: an empty map.
#[verifier::external_body]
pub fn region_table_new() -> (fresh: DashMap<String, Vec<String>>)
    ensures
        region_table(fresh).dom() == Set::<Seq<char>>::empty(),
{
    DashMap::new()
}

/// Calls `DashMap::len`: the number of entries.
#[verifier::external_body]
pub fn region_table_len(m: &DashMap<String, Vec<String>>) -> (n: usize)
    ensures
        n == region_table(*m).dom().len(),
{
    m.len()
}

/// Calls `DashMap::get` and clones the stored value, if any.
#[verifier::external_body]
pub fn region_table_get(m: &DashMap<String, Vec<String>>, key: &str) -> (r: Option<Vec<String>>)
    ensures
        r is Some <==> region_table(*m).contains_key(key@),
        r matches Some(v) ==> v@ == region_table(*m)[key@],
{
    m.get(key).map(|e| e.value().clone())
}

/// Calls `DashMap::insert`: the key now maps to the value.
#[verifier::external_body]
pub fn region_table_insert(m: &mut DashMap<String, Vec<String>>, key: String, value: Vec<String>)
    ensures
        region_table(*final(m)) == region_table(*old(m)).insert(key@, value@),
{
    m.insert(key, value);
}

/// Walks `DashMap::iter` and clones each entry: every entry once, in the
/// map's iteration order, which depends on hashing and is not promised.
#[verifier::external_body]
pub fn region_table_entries(m: &DashMap<String, Vec<String>>) -> (s: Vec<(String, Vec<String>)>)
    ensures
        is_entry_snapshot(region_table(*m), entry_views(s@)),
{
    m.iter().map(|e| (e.key().clone(), e.value().clone())).collect()
}

// --- cache hit and miss counts, keyed by cache key ---

/// Contents of a `DashMap<String, CacheStats>`.
pub uninterp spec fn stats_table(m: DashMap<String, CacheStats>) -> Map<Seq<char>, CacheStats>;

/// Calls `DashMap::new`: an empty map.
#[verifier::external_body]
pub fn stats_table_new() -> (fresh: DashMap<String, CacheStats>)
    ensures
        stats_table(fresh).dom() == Set::<Seq<char>>::empty(),
{
    DashMap::new()
}

/// Calls `DashMap::get` and clones the stored value, if any.
#[verifier::external_body]
pub fn stats_table_get(m: &DashMap<String, CacheStats>, key: &str) -> (r: Option<CacheStats>)
    ensures
        r is Some <==> stats_table(*m).contains_key(key@),
        r matches Some(v) ==> v == stats_table(*m)[key@],
{
    m.get(key).map(|e| e.value().clone())
}

/// Calls `DashMap::insert`: the key now maps to the value.
#[verifier::external_body]
pub fn stats_table_insert(m: &mut DashMap<String, CacheStats>, key: String, value: CacheStats)
    ensures
        stats_table(*final(m)) == stats_table(*old(m)).insert(key@, value),
{
    m.insert(key, value);
}

/// Walks `DashMap::iter` and clones each entry: every entry once, in the
/// map's iteration order, which depends on hashing and is not promised.
#[verifier::external_body]
pub fn stats_table_entries(m: &DashMap<String, CacheStats>) -> (s: Vec<(String, CacheStats)>)
    ensures
        is_entry_snapshot(stats_table(*m), s@),
{
    m.iter().map(|e| (e.key().clone(), e.value().clone())).collect()
}

// --- live streams, keyed by stream id ---

/// Contents of a `DashMap<String, StreamMetadata>`.
pub uninterp spec fn stream_table(m: DashMap<String, StreamMetadata>) -> Map<Seq<char>, StreamMetadata>;

/// Calls `DashMap::new`: an empty map.
#[verifier::external_body]
pub fn stream_table_new() -> (fresh: DashMap<String, StreamMetadata>)
    ensures
        stream_table(fresh).dom() == Set::<Seq<char>>::empty(),
{
    DashMap::new()
}

/// Calls `DashMap::len`: the number of entries.
#[verifier::external_body]
pub fn stream_table_len(m: &DashMap<String, StreamMetadata>) -> (n: usize)
    ensures
        n == stream_table(*m).dom().len(),
{
    m.len()
}

/// Calls `DashMap::contains_key`.
#[verifier::external_body]
pub fn stream_table_contains(m: &DashMap<String, StreamMetadata>, key: &str) -> (r: bool)
    ensures
        r == stream_table(*m).contains_key(key@),
{
    m.contains_key(key)
}

/// Calls `DashMap::get` and clones the stored value, if any.
#[verifier::external_body]
pub fn stream_table_get(m: &DashMap<String, StreamMetadata>, key: &str) -> (r: Option<StreamMetadata>)
    ensures
        r is Some <==> stream_table(*m).contains_key(key@),
        r matches Some(v) ==> v == stream_table(*m)[key@],
{
    m.get(key).map(|e| e.value().clone())
}

/// Calls `DashMap::insert`: the key now maps to the value.
#[verifier::external_body]
pub fn stream_table_insert(m: &mut DashMap<String, StreamMetadata>, key: String, value: StreamMetadata)
    ensures
        stream_table(*final(m)) == stream_table(*old(m)).insert(key@, value),
{
    m.insert(key, value);
}

/// Calls `DashMap::remove`: drops the key's entry and hands back its value.
#[verifier::external_body]
pub fn stream_table_remove(m: &mut DashMap<String, StreamMetadata>, key: &str) -> (r: Option<StreamMetadata>)
    ensures
        stream_table(*final(m)) == stream_table(*old(m)).remove(key@),
        r is Some <==> stream_table(*old(m)).contains_key(key@),
        r matches Some(v) ==> v == stream_table(*old(m))[key@],
{
    m.remove(key).map(|(_, v)| v)
}

/// Walks `DashMap::iter` and clones each entry: every entry once, in the
/// map's iteration order, which depends on hashing and is not promised.
#[verifier::external_body]
pub fn stream_table_entries(m: &DashMap<String, StreamMetadata>) -> (s: Vec<(String, StreamMetadata)>)
    ensures
        is_entry_snapshot(stream_table(*m), s@),
{
    m.iter().map(|e| (e.key().clone(), e.value().clone())).collect()
}

// --- viewer counts, keyed by stream id ---

/// Contents of a `DashMap<String, usize>`.
pub uninterp spec fn viewer_table(m: DashMap<String, usize>) -> Map<Seq<char>, usize>;

/// Calls `DashMap::new`: an empty map.
#[verifier::external_body]
pub fn viewer_table_new() -> (fresh: DashMap<String, usize>)
    ensures
        viewer_table(fresh).dom() == Set::<Seq<char>>::empty(),
{
    DashMap::new()
}

/// Calls `DashMap::get` and clones the stored value, if any.
#[verifier::external_body]
pub fn viewer_table_get(m: &DashMap<String, usize>, key: &str) -> (r: Option<usize>)
    ensures
        r is Some <==> viewer_table(*m).contains_key(key@),
        r matches Some(v) ==> v == viewer_table(*m)[key@],
{
    m.get(key).map(|e| e.value().clone())
}

/// Calls `DashMap::insert`: the key now maps to the value.
#[verifier::external_body]
pub fn viewer_table_insert(m: &mut DashMap<String, usize>, key: String, value: usize)
    ensures
        viewer_table(*final(m)) == viewer_table(*old(m)).insert(key@, value),
{
    m.insert(key, value);
}

/// Calls `DashMap::remove`: drops the key's entry and hands back its value.
#[verifier::external_body]
pub fn viewer_table_remove(m: &mut DashMap<String, usize>, key: &str) -> (r: Option<usize>)
    ensures
        viewer_table(*final(m)) == viewer_table(*old(m)).remove(key@),
        r is Some <==> viewer_table(*old(m)).contains_key(key@),
        r matches Some(v) ==> v == viewer_table(*old(m))[key@],
{
    m.remove(key).map(|(_, v)| v)
}

/// Walks `DashMap::iter` and clones each entry: every entry once, in the
/// map's iteration order, which depends on hashing and is not promised.
#[verifier::external_body]
pub fn viewer_table_entries(m: &DashMap<String, usize>) -> (s: Vec<(String, usize)>)
    ensures
        is_entry_snapshot(viewer_table(*m), s@),
{
    m.iter().map(|e| (e.key().clone(), e.value().clone())).collect()
}

// --- WebRTC signalling records, keyed by peer id ---

/// Contents of a `DashMap<String, WebRTCConnection>`.
pub uninterp spec fn connection_table(m: DashMap<String, WebRTCConnection>) -> Map<Seq<char>, ConnectionView>;

/// Calls `DashMap::new`: an empty map.
#[verifier::external_body]
pub fn connection_table_new() -> (fresh: DashMap<String, WebRTCConnection>)
    ensures
        connection_table(fresh).dom() == Set::<Seq<char>>::empty(),
{
    DashMap::new()
}

/// Calls `DashMap::get` and clones the stored value, if any.
#[verifier::external_body]
pub fn connection_table_get(m: &DashMap<String, WebRTCConnection>, key: &str) -> (r: Option<WebRTCConnection>)
    ensures
        r is Some <==> connection_table(*m).contains_key(key@),
        r matches Some(v) ==> v@ == connection_table(*m)[key@],
{
    m.get(key).map(|e| e.value().clone())
}

/// Calls `DashMap::insert`: the key now maps to the value.
#[verifier::external_body]
pub fn connection_table_insert(m: &mut DashMap<String, WebRTCConnection>, key: String, value: WebRTCConnection)
    ensures
        connection_table(*final(m)) == connection_table(*old(m)).insert(key@, value@),
{
    m.insert(key, value);
}

// --- renditions of each stream, keyed by stream id ---

/// Contents of a `DashMap<String, Vec<AdaptiveStream>>`.
pub uninterp spec fn variant_table(m: DashMap<String, Vec<AdaptiveStream>>) -> Map<Seq<char>, Seq<AdaptiveStreamView>>;

/// Calls `DashMap::new`: an empty map.
#[verifier::external_body]
pub fn variant_table_new() -> (fresh: DashMap<String, Vec<AdaptiveStream>>)
    ensures
        variant_table(fresh).dom() == Set::<Seq<char>>::empty(),
{
    DashMap::new()
}

/// Calls `DashMap::get` and clones the stored value, if any.
#[verifier::external_body]
pub fn variant_table_get(m: &DashMap<String, Vec<AdaptiveStream>>, key: &str) -> (r: Option<Vec<AdaptiveStream>>)
    ensures
        r is Some <==> variant_table(*m).contains_key(key@),
        r matches Some(v) ==> v.deep_view() == variant_table(*m)[key@],
{
    m.get(key).map(|e| e.value().clone())
}

/// Calls `DashMap::insert`: the key now maps to the value.
#[verifier::external_body]
pub fn variant_table_insert(m: &mut DashMap<String, Vec<AdaptiveStream>>, key: String, value: Vec<AdaptiveStream>)
    ensures
        variant_table(*final(m)) == variant_table(*old(m)).insert(key@, value.deep_view()),
{
    m.insert(key, value);
}

/// Calls `DashMap::remove`: drops the key's entry and hands back its value.
#[verifier::external_body]
pub fn variant_table_remove(m: &mut DashMap<String, Vec<AdaptiveStream>>, key: &str) -> (r: Option<Vec<AdaptiveStream>>)
    ensures
        variant_table(*final(m)) == variant_table(*old(m)).remove(key@),
        r is Some <==> variant_table(*old(m)).contains_key(key@),
        r matches Some(v) ==> v.deep_view() == variant_table(*old(m))[key@],
{
    m.remove(key).map(|(_, v)| v)
}

// --- sessions of each transcoding worker, keyed by worker index ---

/// Contents of a `DashMap<usize, usize>`.
pub uninterp spec fn load_table(m: DashMap<usize, usize>) -> Map<usize, usize>;

/// `s` lists each entry of `m` exactly once, in some order.
pub open spec fn is_index_snapshot(m: Map<usize, usize>, s: Seq<(usize, usize)>) -> bool {
    &&& forall|i: int| 0 <= i < s.len() ==> m.contains_key(#[trigger] s[i].0) && m[s[i].0] == s[i].1
    &&& forall|i: int, j: int| 0 <= i < j < s.len() ==> #[trigger] s[i].0 != #[trigger] s[j].0
    &&& forall|k: usize| #[trigger] m.contains_key(k) ==> exists|i: int| 0 <= i < s.len() && #[trigger] s[i].0 == k
}

/// Calls `DashMap::new`: an empty map.
#[verifier::external_body]
pub fn load_table_new() -> (fresh: DashMap<usize, usize>)
    ensures
        load_table(fresh).dom() == Set::<usize>::empty(),
{
    DashMap::new()
}

/// Calls `DashMap::get` and copies the stored value, if any.
#[verifier::external_body]
pub fn load_table_get(m: &DashMap<usize, usize>, key: usize) -> (r: Option<usize>)
    ensures
        r is Some <==> load_table(*m).contains_key(key),
        r matches Some(v) ==> v == load_table(*m)[key],
{
    m.get(&key).map(|e| *e.value())
}

/// Calls `DashMap::insert`: the key now maps to the value.
#[verifier::external_body]
pub fn load_table_insert(m: &mut DashMap<usize, usize>, key: usize, value: usize)
    ensures
        load_table(*final(m)) == load_table(*old(m)).insert(key, value),
{
    m.insert(key, value);
}

/// Walks `DashMap::iter` and copies each entry: every entry once, in the
/// map's iteration order, which depends on hashing and is not promised.
#[verifier::external_body]
pub fn load_table_entries(m: &DashMap<usize, usize>) -> (s: Vec<(usize, usize)>)
    ensures
        is_index_snapshot(load_table(*m), s@),
{
    m.iter().map(|e| (*e.key(), *e.value())).collect()
}

} // verus!
