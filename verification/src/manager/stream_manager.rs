//! Bookkeeping of the live streams of a node: their metadata, viewer counts and
//! renditions with their recent segments, the edge cache the segments go to,
//! and the edge nodes viewers are sent to.
//!
//! Fan-out of segments to connected viewers and the distributed cache tier are
//! driven by the caller: `ingest_segment` returns the cache writes it made, and
//! segment lookups are split around the distributed tier.

use vstd::prelude::*;
use dashmap::DashMap;
use std::collections::{HashMap, VecDeque};
use vstd::std_specs::vecdeque::VecDequeAdditionalSpecFns;
use crate::cdn::cache::{drop_matching, lemma_put_then_lookup, lookup, with_hit, with_miss, CacheStats, EdgeCache};
use crate::cdn::edge_manager::{nodes_of, EdgeNodeManager, LoadBalancingStrategy};
use crate::cdn::selection::default_health_config;
use crate::config::settings::Config;
use crate::domain::edge_node::EdgeNode;
use crate::domain::quality::{
    all_qualities, quality_bitrate_kbps, quality_index, quality_name, quality_resolution, StreamQuality,
};
use crate::domain::stream::{AdaptiveStream, AdaptiveStreamView, SegmentView, StreamMetadata, VideoSegment};
use crate::ingest::transcoder::{scaled_len, scaled_prefix};
use crate::outside::{after_get, after_put, is_entry_snapshot, now_nanos};
use crate::streaming::dash::{mpd, DASHManifestGenerator};
use crate::streaming::hls::{master_playlist, media_playlist, HLSManifestGenerator};
use crate::streaming::webrtc::WebRTCManager;
use crate::tables::{
    node_table, node_table_entries, node_table_insert, node_table_new, stream_table, stream_table_contains,
    stream_table_entries, stream_table_get, stream_table_insert, stream_table_len, stream_table_new,
    stream_table_remove, variant_table, variant_table_get, variant_table_insert, variant_table_new,
    variant_table_remove, viewer_table, viewer_table_entries, viewer_table_get, viewer_table_insert,
    viewer_table_new, viewer_table_remove,
};
use crate::text::{decimal, push_decimal, str_eq};

verus! {

/// Number of segments a rendition keeps (its DVR window).
pub const DVR_WINDOW_SEGMENTS: usize = 60;

/// Lifetime of a segment in the distributed cache tier, in seconds.
pub const SEGMENT_CACHE_TTL_SECONDS: u64 = 300;

/// The strategy a configuration names; unknown names mean least connections.
pub open spec fn strategy_named(name: Seq<char>) -> LoadBalancingStrategy {
    if name == "round-robin"@ {
        LoadBalancingStrategy::RoundRobin
    } else if name == "least-connections"@ {
        LoadBalancingStrategy::LeastConnections
    } else if name == "geographic"@ {
        LoadBalancingStrategy::Geographic
    } else if name == "weighted"@ {
        LoadBalancingStrategy::Weighted
    } else if name == "random"@ {
        LoadBalancingStrategy::Random
    } else {
        LoadBalancingStrategy::LeastConnections
    }
}

/// Reads a load-balancing strategy name as written in the configuration.
pub fn strategy_from_name(name: &str) -> (s: LoadBalancingStrategy)
    ensures
        s == strategy_named(name@),
{
    if str_eq(name, "round-robin") {
        LoadBalancingStrategy::RoundRobin
    } else if str_eq(name, "least-connections") {
        LoadBalancingStrategy::LeastConnections
    } else if str_eq(name, "geographic") {
        LoadBalancingStrategy::Geographic
    } else if str_eq(name, "weighted") {
        LoadBalancingStrategy::Weighted
    } else if str_eq(name, "random") {
        LoadBalancingStrategy::Random
    } else {
        LoadBalancingStrategy::LeastConnections
    }
}

/// The rendition of quality `q` of a new stream: nominal bitrate and frame size,
/// no segments, a window of `DVR_WINDOW_SEGMENTS`.
pub open spec fn initial_variant(q: StreamQuality) -> AdaptiveStreamView {
    AdaptiveStreamView {
        quality: q,
        bitrate_kbps: quality_bitrate_kbps(q),
        resolution: quality_resolution(q),
        segments: Seq::empty(),
        max_segments: DVR_WINDOW_SEGMENTS,
    }
}

/// The renditions of a new stream, lowest quality first.
pub open spec fn initial_variants() -> Seq<AdaptiveStreamView> {
    all_qualities().map_values(|q: StreamQuality| initial_variant(q))
}

/// The renditions of a stream are one per quality, lowest first, each with its
/// nominal bitrate, frame size and window length, and no window holds more
/// segments than its length.
pub open spec fn variants_ok(vs: Seq<AdaptiveStreamView>) -> bool {
    &&& vs.len() == 4
    &&& forall|i: int| 0 <= i < 4 ==> {
        &&& (#[trigger] vs[i]).quality == all_qualities()[i]
        &&& vs[i].bitrate_kbps == quality_bitrate_kbps(vs[i].quality)
        &&& vs[i].resolution == quality_resolution(vs[i].quality)
        &&& vs[i].max_segments == DVR_WINDOW_SEGMENTS
        &&& vs[i].segments.len() <= vs[i].max_segments
    }
}

/// The metadata of a stream just created.
pub open spec fn is_new_metadata(
    m: StreamMetadata,
    stream_id: Seq<char>,
    broadcaster_id: Seq<char>,
    title: Seq<char>,
    now: u64,
) -> bool {
    &&& m.stream_id@ == stream_id
    &&& m.broadcaster_id@ == broadcaster_id
    &&& m.title@ == title
    &&& m.viewers == 0
    &&& m.started_at == now
    &&& m.bitrate_kbps == 3000
    &&& m.resolution@ == "1280x720"@
    &&& m.codec@ == "H264"@
}

/// A segment as stored for quality `q`: relabelled, with the payload cut to the
/// share that quality keeps.
pub open spec fn transcoded(s: SegmentView, q: StreamQuality) -> SegmentView {
    SegmentView { quality: q, data: s.data.take(scaled_len(s.data.len(), q) as int), ..s }
}

/// A window after appending `s`: the oldest segment leaves once it holds more than `max`.
pub open spec fn window_push(w: Seq<SegmentView>, s: SegmentView, max: nat) -> Seq<SegmentView> {
    if w.len() + 1 > max { w.push(s).drop_first() } else { w.push(s) }
}

/// A rendition after a segment was ingested.
pub open spec fn variant_after(v: AdaptiveStreamView, s: SegmentView) -> AdaptiveStreamView {
    AdaptiveStreamView { segments: window_push(v.segments, transcoded(s, v.quality), v.max_segments as nat), ..v }
}

/// All renditions after a segment was ingested.
pub open spec fn variants_after(vs: Seq<AdaptiveStreamView>, s: SegmentView) -> Seq<AdaptiveStreamView> {
    vs.map_values(|v: AdaptiveStreamView| variant_after(v, s))
}

/// Cache key of a segment: `segment:{stream}:{quality name}:{sequence}`.
pub open spec fn segment_key(stream_id: Seq<char>, q: StreamQuality, sequence: u64) -> Seq<char> {
    "segment:"@ + stream_id + ":"@ + quality_name(q) + ":"@ + decimal(sequence as nat)
}

/// The cache pattern of all segments of a stream: `segment:{stream}`.
pub open spec fn stream_pattern(stream_id: Seq<char>) -> Seq<char> {
    "segment:"@ + stream_id
}

/// The cache writes of one ingested segment, one per rendition, in rendition order.
pub open spec fn writes_for(stream_id: Seq<char>, vs: Seq<AdaptiveStreamView>, s: SegmentView) -> Seq<(Seq<char>, Seq<u8>)> {
    vs.map_values(|v: AdaptiveStreamView| (segment_key(stream_id, v.quality, s.sequence), transcoded(s, v.quality).data))
}

/// A cache after storing each of `ws` in turn.
pub open spec fn puts_all(es: Seq<(Seq<char>, Seq<u8>)>, cap: nat, ws: Seq<(Seq<char>, Seq<u8>)>) -> Seq<(Seq<char>, Seq<u8>)>
    decreases ws.len(),
{
    if ws.len() == 0 {
        es
    } else {
        after_put(puts_all(es, cap, ws.drop_last()), cap, ws.last().0, ws.last().1)
    }
}

/// Key and payload of each write, by their views.
pub open spec fn write_views(ws: Seq<(String, Vec<u8>)>) -> Seq<(Seq<char>, Seq<u8>)> {
    ws.map_values(|w: (String, Vec<u8>)| (w.0@, w.1@))
}

/// The first segment of a window with the given sequence number, if any.
pub open spec fn find_sequence(w: Seq<SegmentView>, sequence: u64) -> Option<SegmentView>
    decreases w.len(),
{
    if w.len() == 0 {
        None
    } else if w[0].sequence == sequence {
        Some(w[0])
    } else {
        find_sequence(w.drop_first(), sequence)
    }
}

/// Sum of the viewer counts of a snapshot.
pub open spec fn sum_counts(s: Seq<(String, usize)>) -> int
    decreases s.len(),
{
    if s.len() == 0 { 0 } else { sum_counts(s.drop_last()) + s.last().1 }
}

/// The metadata of a snapshot, in snapshot order.
pub open spec fn metadata_of(s: Seq<(String, StreamMetadata)>) -> Seq<StreamMetadata> {
    s.map_values(|e: (String, StreamMetadata)| e.1)
}

/// Totals of the node for monitoring.
#[derive(Debug, Clone, Copy)]
pub struct SystemMetrics {
    pub active_streams: usize,
    pub total_viewers: usize,
    pub total_hits: u64,
    pub total_misses: u64,
}

/// The streams of a node and everything kept per stream.
pub struct StreamManager {
    streams: DashMap<String, StreamMetadata>,
    adaptive_streams: DashMap<String, Vec<AdaptiveStream>>,
    viewer_counts: DashMap<String, usize>,
    edge_cache: EdgeCache,
    hls_generator: HLSManifestGenerator,
    dash_generator: DASHManifestGenerator,
    /// Signalling records of WebRTC peers
    pub webrtc_manager: WebRTCManager,
    edge_nodes: DashMap<String, EdgeNode>,
    /// Edge node manager for CDN distribution
    pub edge_manager: EdgeNodeManager,
}

impl StreamManager {
    /// Metadata of each stream, keyed by stream id.
    pub closed spec fn streams_view(&self) -> Map<Seq<char>, StreamMetadata> {
        stream_table(self.streams)
    }

    /// Renditions of each stream, keyed by stream id.
    pub closed spec fn variants_view(&self) -> Map<Seq<char>, Seq<AdaptiveStreamView>> {
        variant_table(self.adaptive_streams)
    }

    /// Viewer count of each stream, keyed by stream id.
    pub closed spec fn viewers_view(&self) -> Map<Seq<char>, usize> {
        viewer_table(self.viewer_counts)
    }

    /// Entries of the in-memory segment cache, most recently used first.
    pub closed spec fn cache_memory(&self) -> Seq<(Seq<char>, Seq<u8>)> {
        self.edge_cache.memory()
    }

    /// Capacity of the in-memory segment cache.
    pub closed spec fn cache_capacity(&self) -> nat {
        self.edge_cache.capacity()
    }

    /// Hit and miss counts of the segment cache, keyed by cache key.
    pub closed spec fn cache_stats(&self) -> Map<Seq<char>, CacheStats> {
        self.edge_cache.stats_view()
    }

    /// Edge nodes registered directly with this manager, keyed by node id.
    pub closed spec fn edge_nodes_view(&self) -> Map<Seq<char>, EdgeNode> {
        node_table(self.edge_nodes)
    }

    /// The edge node manager.
    pub closed spec fn edge_manager_state(&self) -> EdgeNodeManager {
        self.edge_manager
    }

    /// The WebRTC signalling records.
    pub closed spec fn webrtc_state(&self) -> WebRTCManager {
        self.webrtc_manager
    }

    /// The parts with invariants of their own are well formed.
    pub closed spec fn parts_ok(&self) -> bool {
        &&& self.edge_cache.wf()
        &&& self.hls_generator.target_duration_spec() == 6
    }

    /// Every stream has renditions and a viewer count, and nothing else does; the
    /// metadata of a stream carries its id and its viewer count; renditions follow
    /// `variants_ok`; edge nodes are stored under their ids.
    pub open spec fn wf(&self) -> bool {
        &&& self.parts_ok()
        &&& self.streams_view().dom() == self.variants_view().dom()
        &&& self.streams_view().dom() == self.viewers_view().dom()
        &&& forall|k: Seq<char>| #[trigger] self.streams_view().contains_key(k) ==> {
            &&& self.streams_view()[k].stream_id@ == k
            &&& self.streams_view()[k].viewers == self.viewers_view()[k]
            &&& variants_ok(self.variants_view()[k])
        }
        &&& forall|k: Seq<char>| #[trigger] self.edge_nodes_view().contains_key(k) ==> self.edge_nodes_view()[k].node_id@ == k
    }

    /// The cache and the edge nodes are as in `other`.
    pub open spec fn same_cdn(&self, other: &Self) -> bool {
        &&& self.cache_memory() == other.cache_memory()
        &&& self.cache_capacity() == other.cache_capacity()
        &&& self.cache_stats() == other.cache_stats()
        &&& self.edge_nodes_view() == other.edge_nodes_view()
        &&& self.edge_manager_state() == other.edge_manager_state()
        &&& self.webrtc_state() == other.webrtc_state()
    }

    /// The streams, renditions and viewer counts are as in `other`.
    pub open spec fn same_streams(&self, other: &Self) -> bool {
        &&& self.streams_view() == other.streams_view()
        &&& self.variants_view() == other.variants_view()
        &&& self.viewers_view() == other.viewers_view()
    }

    /// A manager with no streams, an empty cache of the configured size and an
    /// edge node manager using the configured strategy.
    pub fn new(config: &Config) -> (m: Self)
        requires
            config.cdn.memory_cache_size > 0,
        ensures
            m.wf(),
            m.streams_view().dom() == Set::<Seq<char>>::empty(),
            m.cache_memory().len() == 0,
            m.cache_capacity() == config.cdn.memory_cache_size,
            m.cache_stats().dom() == Set::<Seq<char>>::empty(),
            m.edge_nodes_view().dom() == Set::<Seq<char>>::empty(),
            m.edge_manager_state().wf(),
            m.edge_manager_state().nodes_view().dom().len() == 0,
            m.edge_manager_state().strategy_view() == strategy_named(config.cdn.load_balancing_strategy@),
            m.edge_manager_state().config() == default_health_config(),
            m.webrtc_state().connections_view().dom() == Set::<Seq<char>>::empty(),
    {
        let edge_cache = EdgeCache::new(config.cdn.memory_cache_size);
        let strategy = strategy_from_name(config.cdn.load_balancing_strategy.as_str());
        let m = StreamManager {
            streams: stream_table_new(),
            adaptive_streams: variant_table_new(),
            viewer_counts: viewer_table_new(),
            edge_cache,
            hls_generator: HLSManifestGenerator::new(),
            dash_generator: DASHManifestGenerator::new(),
            webrtc_manager: WebRTCManager::new(),
            edge_nodes: node_table_new(),
            edge_manager: EdgeNodeManager::new(strategy),
        };
        proof {
            assert(m.cache_stats().dom() =~= Set::empty());
        }
        m
    }

    /// Creates a stream started now; see `create_stream_at`.
    pub fn create_stream(&mut self, stream_id: String, broadcaster_id: String, title: String) -> (r: Result<(), String>)
        requires
            old(self).wf(),
        ensures
            final(self).wf(),
            final(self).same_cdn(&*old(self)),
            r is Err <==> old(self).streams_view().contains_key(stream_id@),
            r matches Err(e) ==> e@ == "Stream already exists"@ && final(self).same_streams(&*old(self)),
            r is Ok ==> created(&*old(self), &*final(self), stream_id@, broadcaster_id@, title@, final(self).streams_view()[stream_id@].started_at),
    {
        let now = now_nanos();
        self.create_stream_at(stream_id, broadcaster_id, title, now)
    }

    /// Creates a stream started at time `now` (nanoseconds since the UNIX epoch),
    /// with no viewers and one empty rendition per quality; fails, changing nothing,
    /// if the id is taken.
    pub fn create_stream_at(&mut self, stream_id: String, broadcaster_id: String, title: String, now: u64) -> (r: Result<(), String>)
        requires
            old(self).wf(),
        ensures
            final(self).wf(),
            final(self).same_cdn(&*old(self)),
            r is Err <==> old(self).streams_view().contains_key(stream_id@),
            r matches Err(e) ==> e@ == "Stream already exists"@ && final(self).same_streams(&*old(self)),
            r is Ok ==> created(&*old(self), &*final(self), stream_id@, broadcaster_id@, title@, now),
    {
        if stream_table_contains(&self.streams, stream_id.as_str()) {
            return Err(String::from_str("Stream already exists"));
        }
        let metadata = StreamMetadata {
            stream_id: stream_id.clone(),
            broadcaster_id,
            title,
            viewers: 0,
            started_at: now,
            bitrate_kbps: 3000,
            resolution: String::from_str("1280x720"),
            codec: String::from_str("H264"),
        };
        stream_table_insert(&mut self.streams, stream_id.clone(), metadata);
        viewer_table_insert(&mut self.viewer_counts, stream_id.clone(), 0);
        let variants = new_variants();
        variant_table_insert(&mut self.adaptive_streams, stream_id, variants);
        proof {
            let k = stream_id@;
            assert forall|j: Seq<char>| #[trigger] self.streams_view().contains_key(j) implies {
                &&& self.streams_view()[j].stream_id@ == j
                &&& self.streams_view()[j].viewers == self.viewers_view()[j]
                &&& variants_ok(self.variants_view()[j])
            } by {
                if j != k {
                    assert(old(self).streams_view().contains_key(j));
                }
            }
            assert(self.streams_view().dom() =~= self.variants_view().dom());
            assert(self.streams_view().dom() =~= self.viewers_view().dom());
            assert(self.edge_nodes_view() == old(self).edge_nodes_view());
        }
        Ok(())
    }

    /// Stores a segment of a live stream in every rendition (transcoded to its
    /// quality, oldest segment leaving a full window) and in the in-memory cache,
    /// and returns the cache writes made, for the distributed tier. Fails,
    /// changing nothing, for an unknown stream.
    pub fn ingest_segment(&mut self, stream_id: &str, segment: VideoSegment) -> (r: Result<Vec<(String, Vec<u8>)>, String>)
        requires
            old(self).wf(),
        ensures
            final(self).wf(),
            r is Err <==> !old(self).streams_view().contains_key(stream_id@),
            r matches Err(e) ==> e@ == "Stream not found"@ && final(self).same_streams(&*old(self))
                && final(self).same_cdn(&*old(self)),
            r matches Ok(ws) ==> ingested(&*old(self), &*final(self), stream_id@, segment.deep_view(), write_views(ws@)),
    {
        if !stream_table_contains(&self.streams, stream_id) {
            return Err(String::from_str("Stream not found"));
        }
        let ghost vs0 = self.variants_view()[stream_id@];
        let taken = variant_table_remove(&mut self.adaptive_streams, stream_id);
        let vs = taken.unwrap();
        let (out, writes) = ingest_into(vs, stream_id, &segment);
        cache_all(&mut self.edge_cache, &writes);
        variant_table_insert(&mut self.adaptive_streams, String::from_str(stream_id), out);
        proof {
            lemma_variants_after_ok(vs0, segment.deep_view());
            assert(self.variants_view() =~= old(self).variants_view().insert(stream_id@, variants_after(vs0, segment.deep_view())));
            assert forall|j: Seq<char>| #[trigger] self.streams_view().contains_key(j) implies {
                &&& self.streams_view()[j].stream_id@ == j
                &&& self.streams_view()[j].viewers == self.viewers_view()[j]
                &&& variants_ok(self.variants_view()[j])
            } by {
                assert(old(self).streams_view().contains_key(j));
            }
            assert(self.streams_view().dom() =~= self.variants_view().dom());
            assert(self.edge_nodes_view() == old(self).edge_nodes_view());
        }
        Ok(writes)
    }

    /// The HLS master playlist of a stream, listing every quality; `None` for an
    /// unknown stream.
    pub fn get_hls_master_playlist(&self, stream_id: &str) -> (r: Option<String>)
        requires
            self.wf(),
        ensures
            r is None <==> !self.streams_view().contains_key(stream_id@),
            r matches Some(p) ==> p@ == master_playlist(all_qualities()),
    {
        if !stream_table_contains(&self.streams, stream_id) {
            return None;
        }
        let qualities = StreamQuality::all();
        Some(self.hls_generator.generate_master_playlist(stream_id, qualities.as_slice()))
    }

    /// The HLS media playlist of one quality of a stream: its current window of
    /// segments with a six-second target duration; `None` for an unknown stream.
    pub fn get_hls_media_playlist(&self, stream_id: &str, quality: StreamQuality) -> (r: Option<String>)
        requires
            self.wf(),
        ensures
            r is None <==> !self.variants_view().contains_key(stream_id@),
            r matches Some(p) ==> p@ == media_playlist(6, self.variants_view()[stream_id@][quality_index(quality)].segments),
    {
        let variants = match variant_table_get(&self.adaptive_streams, stream_id) {
            Some(v) => v,
            None => return None,
        };
        let i = quality_slot(quality);
        assert(self.streams_view().contains_key(stream_id@));
        assert(variants@.len() == 4);
        assert(variants.deep_view()[i as int] == variants@[i as int].deep_view());
        Some(self.hls_generator.generate_media_playlist(stream_id, quality, &variants[i].segments))
    }

    /// First step of a segment lookup: the in-memory cache, under the segment's key.
    pub fn get_segment_cached(&mut self, stream_id: &str, quality: StreamQuality, sequence: u64) -> (r: Option<Vec<u8>>)
        requires
            old(self).wf(),
        ensures
            final(self).wf(),
            final(self).same_streams(&*old(self)),
            final(self).edge_nodes_view() == old(self).edge_nodes_view(),
            final(self).edge_manager_state() == old(self).edge_manager_state(),
            final(self).webrtc_state() == old(self).webrtc_state(),
            opt_bytes(r) == lookup(old(self).cache_memory(), segment_key(stream_id@, quality, sequence)),
            final(self).cache_memory() == after_get(old(self).cache_memory(), segment_key(stream_id@, quality, sequence)),
            final(self).cache_capacity() == old(self).cache_capacity(),
            r is Some ==> final(self).cache_stats() == with_hit(old(self).cache_stats(), segment_key(stream_id@, quality, sequence)),
            r is None ==> final(self).cache_stats() == old(self).cache_stats(),
    {
        let key = segment_key_string(stream_id, quality, sequence);
        let r = self.edge_cache.get_cached(key.as_str());
        proof {
            assert(self.edge_nodes_view() == old(self).edge_nodes_view());
        }
        r
    }

    /// Last step of a segment lookup that missed in memory, given what the
    /// distributed tier returned: a found value is promoted into memory (a hit)
    /// and returned; otherwise a miss is counted and the segment is looked for in
    /// the stream's rendition window.
    pub fn finish_segment_lookup(
        &mut self,
        stream_id: &str,
        quality: StreamQuality,
        sequence: u64,
        remote: Option<Vec<u8>>,
    ) -> (r: Option<Vec<u8>>)
        requires
            old(self).wf(),
        ensures
            final(self).wf(),
            final(self).same_streams(&*old(self)),
            final(self).edge_nodes_view() == old(self).edge_nodes_view(),
            final(self).edge_manager_state() == old(self).edge_manager_state(),
            final(self).webrtc_state() == old(self).webrtc_state(),
            final(self).cache_capacity() == old(self).cache_capacity(),
            remote matches Some(v) ==> r == remote
                && final(self).cache_memory() == after_put(old(self).cache_memory(), old(self).cache_capacity(), segment_key(stream_id@, quality, sequence), v@)
                && final(self).cache_stats() == with_hit(old(self).cache_stats(), segment_key(stream_id@, quality, sequence)),
            remote is None ==> opt_bytes(r) == stored_segment(old(self).variants_view(), stream_id@, quality, sequence)
                && final(self).cache_memory() == old(self).cache_memory()
                && final(self).cache_stats() == with_miss(old(self).cache_stats(), segment_key(stream_id@, quality, sequence)),
    {
        let key = segment_key_string(stream_id, quality, sequence);
        let found = self.edge_cache.finish_lookup(key.as_str(), remote);
        proof {
            assert(self.edge_nodes_view() == old(self).edge_nodes_view());
        }
        if found.is_some() {
            return found;
        }
        let variants = match variant_table_get(&self.adaptive_streams, stream_id) {
            Some(v) => v,
            None => return None,
        };
        let i = quality_slot(quality);
        assert(self.streams_view().contains_key(stream_id@));
        assert(variants.deep_view()[i as int] == variants@[i as int].deep_view());
        find_in_window(&variants[i].segments, sequence)
    }

    /// Registers (or replaces) an edge node under its id.
    pub fn register_edge_node(&mut self, node: EdgeNode)
        requires
            old(self).wf(),
        ensures
            final(self).wf(),
            final(self).same_streams(&*old(self)),
            final(self).edge_nodes_view() == old(self).edge_nodes_view().insert(node.node_id@, node),
            final(self).cache_memory() == old(self).cache_memory(),
            final(self).cache_capacity() == old(self).cache_capacity(),
            final(self).cache_stats() == old(self).cache_stats(),
            final(self).edge_manager_state() == old(self).edge_manager_state(),
            final(self).webrtc_state() == old(self).webrtc_state(),
    {
        let id = node.node_id.clone();
        assert(id@ == node.node_id@);
        node_table_insert(&mut self.edge_nodes, id, node);
        proof {
            assert forall|k: Seq<char>| #[trigger] self.edge_nodes_view().contains_key(k) implies self.edge_nodes_view()[k].node_id@ == k by {
                if k != node.node_id@ {
                    assert(old(self).edge_nodes_view().contains_key(k));
                }
            }
            assert(self.streams_view() == old(self).streams_view());
        }
    }

    /// An edge node with spare capacity and the least load, if any; among equally
    /// loaded nodes the table's iteration order decides.
    pub fn select_edge_node(&self, viewer_location: &str) -> (r: Option<EdgeNode>)
        requires
            self.wf(),
        ensures
            r is None <==> !some_available(self.edge_nodes_view()),
            r matches Some(n) ==> least_loaded_available(self.edge_nodes_view(), n),
    {
        let entries = node_table_entries(&self.edge_nodes);
        let ghost m = self.edge_nodes_view();
        let mut best: Option<EdgeNode> = None;
        let mut i: usize = 0;
        while i < entries.len()
            invariant
                i <= entries@.len(),
                m == self.edge_nodes_view(),
                is_entry_snapshot(m, entries@),
                forall|k: Seq<char>| #[trigger] m.contains_key(k) ==> m[k].node_id@ == k,
                best is None ==> forall|j: int| 0 <= j < i ==> !(#[trigger] entries@[j].1.current_load < entries@[j].1.capacity),
                best matches Some(b) ==> m.contains_key(b.node_id@) && m[b.node_id@] == b && b.current_load < b.capacity
                    && forall|j: int| 0 <= j < i && (#[trigger] entries@[j].1).current_load < entries@[j].1.capacity
                        ==> b.current_load <= entries@[j].1.current_load,
            decreases entries@.len() - i,
        {
            let n = &entries[i].1;
            assert(m.contains_key(entries@[i as int].0@));
            if n.current_load < n.capacity {
                let better = match &best {
                    None => true,
                    Some(b) => n.current_load < b.current_load,
                };
                if better {
                    best = Some(n.clone());
                }
            }
            i = i + 1;
        }
        proof {
            if best is None && some_available(m) {
                let k = choose|k: Seq<char>| #[trigger] m.contains_key(k) && m[k].current_load < m[k].capacity;
                let j = choose|j: int| 0 <= j < entries@.len() && #[trigger] entries@[j].0@ == k;
                assert(entries@[j].1.current_load < entries@[j].1.capacity);
            }
            if best is Some {
                let b = best.unwrap();
                assert forall|k: Seq<char>| #[trigger] m.contains_key(k) && m[k].current_load < m[k].capacity
                    implies b.current_load <= m[k].current_load by {
                    let j = choose|j: int| 0 <= j < entries@.len() && #[trigger] entries@[j].0@ == k;
                    assert(entries@[j].1.current_load < entries@[j].1.capacity);
                }
            }
        }
        best
    }

    /// Counts one more viewer of a stream (the caller attaches the viewer to the
    /// stream's segment feed); fails, changing nothing, for an unknown stream.
    pub fn subscribe_to_stream(&mut self, stream_id: &str, quality: StreamQuality) -> (r: Result<(), String>)
        requires
            old(self).wf(),
            old(self).viewers_view().contains_key(stream_id@) ==> old(self).viewers_view()[stream_id@] < usize::MAX,
        ensures
            final(self).wf(),
            final(self).same_cdn(&*old(self)),
            final(self).variants_view() == old(self).variants_view(),
            r is Err <==> !old(self).streams_view().contains_key(stream_id@),
            r matches Err(e) ==> e@ == "Stream not found"@ && final(self).same_streams(&*old(self)),
            r is Ok ==> viewers_set(&*old(self), &*final(self), stream_id@, (old(self).viewers_view()[stream_id@] + 1) as usize),
    {
        if !stream_table_contains(&self.streams, stream_id) {
            return Err(String::from_str("Stream not found"));
        }
        let count = match viewer_table_get(&self.viewer_counts, stream_id) {
            Some(c) => c + 1,
            None => 1,
        };
        self.set_viewers(stream_id, count);
        Ok(())
    }

    /// Counts one viewer less of a stream (never below zero); does nothing for an
    /// unknown stream.
    pub fn unsubscribe_from_stream(&mut self, stream_id: &str)
        requires
            old(self).wf(),
        ensures
            final(self).wf(),
            final(self).same_cdn(&*old(self)),
            final(self).variants_view() == old(self).variants_view(),
            !old(self).streams_view().contains_key(stream_id@) ==> final(self).same_streams(&*old(self)),
            old(self).streams_view().contains_key(stream_id@) ==> viewers_set(
                &*old(self),
                &*final(self),
                stream_id@,
                (if old(self).viewers_view()[stream_id@] > 0 { old(self).viewers_view()[stream_id@] - 1 } else { 0 }) as usize,
            ),
    {
        match viewer_table_get(&self.viewer_counts, stream_id) {
            None => {
                assert(!self.streams_view().contains_key(stream_id@));
            },
            Some(c) => {
                let count = if c > 0 { c - 1 } else { 0 };
                self.set_viewers(stream_id, count);
            },
        }
    }

    /// Sets the viewer count of a known stream, in the count table and in its metadata.
    fn set_viewers(&mut self, stream_id: &str, count: usize)
        requires
            old(self).wf(),
            old(self).streams_view().contains_key(stream_id@),
        ensures
            final(self).wf(),
            final(self).same_cdn(&*old(self)),
            final(self).variants_view() == old(self).variants_view(),
            viewers_set(&*old(self), &*final(self), stream_id@, count),
    {
        viewer_table_insert(&mut self.viewer_counts, String::from_str(stream_id), count);
        let mut m = stream_table_get(&self.streams, stream_id).unwrap();
        m.viewers = count;
        stream_table_insert(&mut self.streams, String::from_str(stream_id), m);
        proof {
            assert forall|j: Seq<char>| #[trigger] self.streams_view().contains_key(j) implies {
                &&& self.streams_view()[j].stream_id@ == j
                &&& self.streams_view()[j].viewers == self.viewers_view()[j]
                &&& variants_ok(self.variants_view()[j])
            } by {
                if j != stream_id@ {
                    assert(old(self).streams_view().contains_key(j));
                }
            }
            assert(self.streams_view().dom() =~= old(self).streams_view().dom());
            assert(self.viewers_view().dom() =~= old(self).viewers_view().dom());
            assert(self.edge_nodes_view() == old(self).edge_nodes_view());
        }
    }

    /// The metadata of a stream, if it exists.
    pub fn get_stream_metadata(&self, stream_id: &str) -> (r: Option<StreamMetadata>)
        ensures
            r is Some <==> self.streams_view().contains_key(stream_id@),
            r matches Some(m) ==> m == self.streams_view()[stream_id@],
    {
        stream_table_get(&self.streams, stream_id)
    }

    /// The metadata of every stream, in the table's iteration order.
    pub fn list_streams(&self) -> (all: Vec<StreamMetadata>)
        ensures
            exists|s: Seq<(String, StreamMetadata)>| #[trigger] is_entry_snapshot(self.streams_view(), s) && all@ == metadata_of(s),
    {
        let entries = stream_table_entries(&self.streams);
        let mut all: Vec<StreamMetadata> = Vec::new();
        let mut i: usize = 0;
        while i < entries.len()
            invariant
                i <= entries@.len(),
                is_entry_snapshot(self.streams_view(), entries@),
                all@ == metadata_of(entries@.take(i as int)),
            decreases entries@.len() - i,
        {
            all.push(entries[i].1.clone());
            i = i + 1;
            assert(all@ =~= metadata_of(entries@.take(i as int)));
        }
        assert(entries@.take(i as int) =~= entries@);
        all
    }

    /// Ends a stream: its segments leave the in-memory cache (every key containing
    /// `segment:{id}`) and its metadata, renditions and viewer count are dropped.
    /// Always succeeds.
    pub fn end_stream(&mut self, stream_id: &str) -> (r: Result<(), String>)
        requires
            old(self).wf(),
        ensures
            final(self).wf(),
            r is Ok,
            final(self).streams_view() == old(self).streams_view().remove(stream_id@),
            final(self).variants_view() == old(self).variants_view().remove(stream_id@),
            final(self).viewers_view() == old(self).viewers_view().remove(stream_id@),
            final(self).cache_memory() == drop_matching(old(self).cache_memory(), stream_pattern(stream_id@)),
            final(self).cache_capacity() == old(self).cache_capacity(),
            final(self).cache_stats() == old(self).cache_stats(),
            final(self).edge_nodes_view() == old(self).edge_nodes_view(),
            final(self).edge_manager_state() == old(self).edge_manager_state(),
            final(self).webrtc_state() == old(self).webrtc_state(),
    {
        self.invalidate_cache(stream_id);
        let _ = stream_table_remove(&mut self.streams, stream_id);
        let _ = variant_table_remove(&mut self.adaptive_streams, stream_id);
        let _ = viewer_table_remove(&mut self.viewer_counts, stream_id);
        proof {
            assert forall|j: Seq<char>| #[trigger] self.streams_view().contains_key(j) implies {
                &&& self.streams_view()[j].stream_id@ == j
                &&& self.streams_view()[j].viewers == self.viewers_view()[j]
                &&& variants_ok(self.variants_view()[j])
            } by {
                assert(old(self).streams_view().contains_key(j));
            }
            assert(self.streams_view().dom() =~= self.variants_view().dom());
            assert(self.streams_view().dom() =~= self.viewers_view().dom());
            assert(self.edge_nodes_view() == old(self).edge_nodes_view());
        }
        Ok(())
    }

    /// The hit and miss counts of every cache key, in the table's iteration order.
    pub fn get_cache_stats(&self) -> (s: Vec<(String, CacheStats)>)
        ensures
            is_entry_snapshot(self.cache_stats(), s@),
    {
        self.edge_cache.get_stats()
    }

    /// Drops every in-memory cache entry of a stream (keys containing `segment:{id}`).
    pub fn invalidate_cache(&mut self, stream_id: &str)
        requires
            old(self).wf(),
        ensures
            final(self).wf(),
            final(self).same_streams(&*old(self)),
            final(self).cache_memory() == drop_matching(old(self).cache_memory(), stream_pattern(stream_id@)),
            final(self).cache_capacity() == old(self).cache_capacity(),
            final(self).cache_stats() == old(self).cache_stats(),
            final(self).edge_nodes_view() == old(self).edge_nodes_view(),
            final(self).edge_manager_state() == old(self).edge_manager_state(),
            final(self).webrtc_state() == old(self).webrtc_state(),
    {
        let pattern = stream_pattern_string(stream_id);
        self.edge_cache.invalidate(pattern.as_str());
        assert(self.edge_nodes_view() == old(self).edge_nodes_view());
    }

    /// Every edge node registered directly with this manager, in the table's iteration order.
    pub fn get_all_edge_nodes(&self) -> (all: Vec<EdgeNode>)
        ensures
            exists|s: Seq<(String, EdgeNode)>| #[trigger] is_entry_snapshot(self.edge_nodes_view(), s) && all@ == nodes_of(s),
    {
        let entries = node_table_entries(&self.edge_nodes);
        let mut all: Vec<EdgeNode> = Vec::new();
        let mut i: usize = 0;
        while i < entries.len()
            invariant
                i <= entries@.len(),
                is_entry_snapshot(self.edge_nodes_view(), entries@),
                all@ == nodes_of(entries@.take(i as int)),
            decreases entries@.len() - i,
        {
            all.push(entries[i].1.clone());
            i = i + 1;
            assert(all@ =~= nodes_of(entries@.take(i as int)));
        }
        assert(entries@.take(i as int) =~= entries@);
        all
    }

    /// Total number of viewers over all streams (saturating at `usize::MAX`).
    pub fn get_current_load(&self) -> (n: usize)
        ensures
            exists|s: Seq<(String, usize)>| #[trigger] is_entry_snapshot(self.viewers_view(), s)
                && n == capped_usize(sum_counts(s)),
    {
        let entries = viewer_table_entries(&self.viewer_counts);
        let mut total: usize = 0;
        let mut i: usize = 0;
        while i < entries.len()
            invariant
                i <= entries@.len(),
                is_entry_snapshot(self.viewers_view(), entries@),
                total == capped_usize(sum_counts(entries@.take(i as int))),
            decreases entries@.len() - i,
        {
            proof {
                assert(entries@.take(i + 1).drop_last() =~= entries@.take(i as int));
                lemma_sum_counts_nonneg(entries@.take(i as int));
            }
            total = total.saturating_add(entries[i].1);
            i = i + 1;
        }
        assert(entries@.take(i as int) =~= entries@);
        total
    }

    /// Stream, viewer and cache totals of the node (sums saturate).
    pub fn get_metrics(&self) -> (m: SystemMetrics)
        requires
            self.wf(),
        ensures
            m.active_streams == self.streams_view().dom().len(),
            exists|s: Seq<(String, usize)>| #[trigger] is_entry_snapshot(self.viewers_view(), s)
                && m.total_viewers == capped_usize(sum_counts(s)),
            exists|s: Seq<(String, CacheStats)>| #[trigger] is_entry_snapshot(self.cache_stats(), s)
                && m.total_hits == capped_u64(sum_hits(s)) && m.total_misses == capped_u64(sum_misses(s)),
    {
        let active_streams = stream_table_len(&self.streams);
        let total_viewers = self.get_current_load();
        let stats = self.get_cache_stats();
        let (hits, misses) = cache_totals(&stats);
        SystemMetrics { active_streams, total_viewers, total_hits: hits, total_misses: misses }
    }

    /// Periodic cache maintenance; entries expire through the cache's own eviction,
    /// so there is nothing to do. Always succeeds.
    pub fn cleanup_cache(&self) -> (r: Result<(), String>)
        ensures
            r is Ok,
    {
        Ok(())
    }

    /// The DASH manifest of a stream, listing every quality; `None` for an unknown stream.
    pub fn get_dash_manifest(&self, stream_id: &str) -> (r: Option<String>)
        requires
            self.wf(),
        ensures
            r is None <==> !self.variants_view().contains_key(stream_id@),
            r matches Some(m) ==> m@ == mpd(stream_id@, all_qualities()),
    {
        let variants = match variant_table_get(&self.adaptive_streams, stream_id) {
            Some(v) => v,
            None => return None,
        };
        let qualities = StreamQuality::all();
        let mut segments: HashMap<StreamQuality, VecDeque<VideoSegment>> = HashMap::new();
        let mut i: usize = 0;
        while i < variants.len()
            invariant
                i <= variants@.len(),
            decreases variants@.len() - i,
        {
            let _ = segments.insert(variants[i].quality, variants[i].segments.clone());
            i = i + 1;
        }
        Some(self.dash_generator.generate_mpd(stream_id, qualities.as_slice(), &segments))
    }
}

/// Total hits and misses over a statistics snapshot (each sum saturating).
pub fn cache_totals(stats: &Vec<(String, CacheStats)>) -> (r: (u64, u64))
    ensures
        r.0 == capped_u64(sum_hits(stats@)),
        r.1 == capped_u64(sum_misses(stats@)),
{
    let mut hits: u64 = 0;
    let mut misses: u64 = 0;
    let mut i: usize = 0;
    while i < stats.len()
        invariant
            i <= stats@.len(),
            hits == capped_u64(sum_hits(stats@.take(i as int))),
            misses == capped_u64(sum_misses(stats@.take(i as int))),
        decreases stats@.len() - i,
    {
        proof {
            assert(stats@.take(i + 1).drop_last() =~= stats@.take(i as int));
            lemma_sum_stats_nonneg(stats@.take(i as int));
        }
        hits = hits.saturating_add(stats[i].1.hits);
        misses = misses.saturating_add(stats[i].1.misses);
        i = i + 1;
    }
    assert(stats@.take(i as int) =~= stats@);
    (hits, misses)
}

/// Exec counterpart of `quality_index`.
fn quality_slot(q: StreamQuality) -> (i: usize)
    ensures
        i == quality_index(q),
{
    match q {
        StreamQuality::Low => 0,
        StreamQuality::Medium => 1,
        StreamQuality::High => 2,
        StreamQuality::Ultra => 3,
    }
}

/// The cache key of a segment.
pub fn segment_key_string(stream_id: &str, q: StreamQuality, sequence: u64) -> (k: String)
    ensures
        k@ == segment_key(stream_id@, q, sequence),
{
    let mut k = String::from_str("segment:");
    k.append(stream_id);
    k.append(":");
    k.append(q.to_string());
    k.append(":");
    push_decimal(&mut k, sequence);
    assert(k@ =~= segment_key(stream_id@, q, sequence));
    k
}

/// The cache pattern of all segments of a stream.
fn stream_pattern_string(stream_id: &str) -> (p: String)
    ensures
        p@ == stream_pattern(stream_id@),
{
    let mut p = String::from_str("segment:");
    p.append(stream_id);
    assert(p@ =~= stream_pattern(stream_id@));
    p
}

/// Appends a segment to a rendition's window, dropping the oldest one when the
/// window grows past its length.
fn push_into_window(a: &mut AdaptiveStream, seg: VideoSegment)
    ensures
        final(a).deep_view() == (AdaptiveStreamView {
            segments: window_push(old(a).deep_view().segments, seg.deep_view(), old(a).max_segments as nat),
            ..old(a).deep_view()
        }),
{
    let ghost w0 = a.segments.deep_view();
    let ghost sv = seg.deep_view();
    a.segments.push_back(seg);
    assert(a.segments.deep_view() =~= w0.push(sv));
    if a.segments.len() > a.max_segments {
        let _ = a.segments.pop_front();
        assert(a.segments.deep_view() =~= w0.push(sv).drop_first());
    }
}

/// Stores one ingested segment in every rendition and lists the cache writes it
/// calls for, one per rendition, in rendition order.
fn ingest_into(vs: Vec<AdaptiveStream>, stream_id: &str, segment: &VideoSegment) -> (res: (Vec<AdaptiveStream>, Vec<(String, Vec<u8>)>))
    ensures
        res.0.deep_view() == variants_after(vs.deep_view(), segment.deep_view()),
        write_views(res.1@) == writes_for(stream_id@, vs.deep_view(), segment.deep_view()),
{
    let ghost vs0 = vs.deep_view();
    let ghost s = segment.deep_view();
    let mut vs = vs;
    let mut out: Vec<AdaptiveStream> = Vec::new();
    let mut writes: Vec<(String, Vec<u8>)> = Vec::new();
    let ghost mut done: int = 0;
    while vs.len() > 0
        invariant
            0 <= done <= vs0.len(),
            vs.deep_view() == vs0.skip(done),
            out.deep_view() == variants_after(vs0.take(done), s),
            write_views(writes@) == writes_for(stream_id@, vs0.take(done), s),
            segment.deep_view() == s,
        decreases vs@.len(),
    {
        let ghost rest = vs.deep_view();
        let ghost old_v = vs@;
        assert(rest.len() > 0);
        let mut a = vs.remove(0);
        assert forall|j: int| 0 <= j < vs@.len() implies #[trigger] vs.deep_view()[j] == vs0.skip(done + 1)[j] by {
            assert(vs@[j] == old_v[j + 1]);
            assert(rest[j + 1] == old_v[j + 1].deep_view());
        }
        assert(vs.deep_view() =~= vs0.skip(done + 1));
        let ghost av = a.deep_view();
        assert(av == vs0[done]) by {
            assert(rest[0] == av);
            assert(rest[0] == vs0[done]);
        }
        let q = a.quality;
        let data = scaled_prefix(segment.data.as_slice(), q);
        let cached = data.clone();
        assert(cached@ =~= data@);
        let t = VideoSegment {
            sequence: segment.sequence,
            data,
            duration_ms: segment.duration_ms,
            keyframe: segment.keyframe,
            timestamp: segment.timestamp,
            quality: q,
        };
        assert(t.deep_view() == transcoded(s, q));
        push_into_window(&mut a, t);
        let key = segment_key_string(stream_id, q, segment.sequence);
        let ghost out0 = out.deep_view();
        let ghost w0 = write_views(writes@);
        out.push(a);
        writes.push((key, cached));
        proof {
            assert(vs0.take(done + 1) =~= vs0.take(done).push(av));
            assert(out.deep_view() =~= out0.push(variant_after(av, s)));
            assert(out.deep_view() =~= variants_after(vs0.take(done + 1), s));
            assert(write_views(writes@) =~= w0.push((segment_key(stream_id@, av.quality, s.sequence), transcoded(s, av.quality).data)));
            assert(write_views(writes@) =~= writes_for(stream_id@, vs0.take(done + 1), s));
            done = done + 1;
        }
    }
    proof {
        assert(vs0.take(done) =~= vs0);
    }
    (out, writes)
}

/// Stores each write in the in-memory cache, in order.
fn cache_all(cache: &mut EdgeCache, writes: &Vec<(String, Vec<u8>)>)
    requires
        old(cache).wf(),
    ensures
        final(cache).wf(),
        final(cache).memory() == puts_all(old(cache).memory(), old(cache).capacity(), write_views(writes@)),
        final(cache).capacity() == old(cache).capacity(),
        final(cache).stats_view() == old(cache).stats_view(),
{
    let ghost ws = write_views(writes@);
    let mut i: usize = 0;
    while i < writes.len()
        invariant
            i <= writes@.len(),
            ws == write_views(writes@),
            cache.wf(),
            cache.memory() == puts_all(old(cache).memory(), old(cache).capacity(), ws.take(i as int)),
            cache.capacity() == old(cache).capacity(),
            cache.stats_view() == old(cache).stats_view(),
        decreases writes@.len() - i,
    {
        let d = writes[i].1.clone();
        assert(d@ =~= writes@[i as int].1@);
        cache.set(writes[i].0.as_str(), d);
        i = i + 1;
        proof {
            assert(ws.take(i as int).drop_last() =~= ws.take(i - 1));
        }
    }
    assert(ws.take(i as int) =~= ws);
}

/// Ingesting a segment keeps the shape of every rendition.
proof fn lemma_variants_after_ok(vs: Seq<AdaptiveStreamView>, s: SegmentView)
    requires
        variants_ok(vs),
    ensures
        variants_ok(variants_after(vs, s)),
{
    assert forall|i: int| 0 <= i < 4 implies #[trigger] variants_after(vs, s)[i].segments.len() <= DVR_WINDOW_SEGMENTS by {
        lemma_window_bounded(vs[i].segments, transcoded(s, vs[i].quality), DVR_WINDOW_SEGMENTS as nat);
    }
    assert forall|i: int| 0 <= i < 4 implies #[trigger] variants_after(vs, s)[i] == variant_after(vs[i], s) by {}
}

/// A window stays within its length.
pub proof fn lemma_window_bounded(w: Seq<SegmentView>, x: SegmentView, max: nat)
    requires
        w.len() <= max,
        max > 0,
    ensures
        window_push(w, x, max).len() <= max,
        window_push(w, x, max).last() == x,
{
}

/// A segment whose sequence number is not yet in a window is found there once
/// it was pushed.
pub proof fn lemma_find_pushed(w: Seq<SegmentView>, x: SegmentView, max: nat)
    requires
        find_sequence(w, x.sequence) is None,
        max > 0,
    ensures
        find_sequence(window_push(w, x, max), x.sequence) == Some(x),
{
    lemma_find_push(w, x);
    if w.len() + 1 > max && w.len() > 0 {
        assert(w.push(x).drop_first() =~= w.drop_first().push(x));
        assert(w[0].sequence != x.sequence);
        lemma_find_push(w.drop_first(), x);
    }
}

proof fn lemma_find_push(w: Seq<SegmentView>, x: SegmentView)
    requires
        find_sequence(w, x.sequence) is None,
    ensures
        find_sequence(w.push(x), x.sequence) == Some(x),
        w.len() > 0 ==> find_sequence(w.drop_first(), x.sequence) is None,
    decreases w.len(),
{
    if w.len() > 0 {
        assert(w.push(x).drop_first() =~= w.drop_first().push(x));
        lemma_find_push(w.drop_first(), x);
    }
}

/// The renditions of a stream come one per quality, lowest first.
proof fn lemma_variant_slot(vs: Seq<AdaptiveStreamView>, q: StreamQuality)
    requires
        variants_ok(vs),
    ensures
        vs[quality_index(q)].quality == q,
{
    assert(vs[quality_index(q)].quality == all_qualities()[quality_index(q)]);
}

/// `after` is `before` with the viewer count of stream `stream_id` set to `count`,
/// in the count table and in the stream's metadata.
pub open spec fn viewers_set(before: &StreamManager, after: &StreamManager, stream_id: Seq<char>, count: usize) -> bool {
    &&& after.viewers_view() == before.viewers_view().insert(stream_id, count)
    &&& after.streams_view() == before.streams_view().insert(
        stream_id,
        StreamMetadata { viewers: count, ..before.streams_view()[stream_id] },
    )
}

/// `x` capped at `usize::MAX`.
pub open spec fn capped_usize(x: int) -> usize {
    if x > usize::MAX { usize::MAX } else { x as usize }
}

/// `x` capped at `u64::MAX`.
pub open spec fn capped_u64(x: int) -> u64 {
    if x > u64::MAX { u64::MAX } else { x as u64 }
}

/// Sum of the hit counts of a snapshot.
pub open spec fn sum_hits(s: Seq<(String, CacheStats)>) -> int
    decreases s.len(),
{
    if s.len() == 0 { 0 } else { sum_hits(s.drop_last()) + s.last().1.hits }
}

/// Sum of the miss counts of a snapshot.
pub open spec fn sum_misses(s: Seq<(String, CacheStats)>) -> int
    decreases s.len(),
{
    if s.len() == 0 { 0 } else { sum_misses(s.drop_last()) + s.last().1.misses }
}

/// Hit and miss totals are additive over concatenated snapshots, and a one-line
/// snapshot totals that line's own hits and misses; so each total is the sum of
/// its own field over the lines.
pub proof fn lemma_cache_totals_sum_fields(a: Seq<(String, CacheStats)>, b: Seq<(String, CacheStats)>, e: (String, CacheStats))
    ensures
        sum_hits(a + b) == sum_hits(a) + sum_hits(b),
        sum_misses(a + b) == sum_misses(a) + sum_misses(b),
        sum_hits(seq![e]) == e.1.hits,
        sum_misses(seq![e]) == e.1.misses,
    decreases b.len(),
{
    let one = seq![e];
    assert(one.drop_last() =~= Seq::<(String, CacheStats)>::empty());
    assert(one.last() == e);
    assert(sum_hits(one.drop_last()) == 0 && sum_misses(one.drop_last()) == 0);
    assert(sum_hits(one) == sum_hits(one.drop_last()) + one.last().1.hits);
    assert(sum_misses(one) == sum_misses(one.drop_last()) + one.last().1.misses);
    if b.len() > 0 {
        lemma_cache_totals_sum_fields(a, b.drop_last(), e);
        assert((a + b).drop_last() =~= a + b.drop_last());
    } else {
        assert(a + b =~= a);
    }
}

/// The miss total depends on the miss counts alone and the hit total on the hit
/// counts alone: snapshots whose lines agree on misses (hits) have equal miss
/// (hit) totals, whatever their other counts.
pub proof fn lemma_cache_totals_independent(a: Seq<(String, CacheStats)>, b: Seq<(String, CacheStats)>)
    requires
        a.len() == b.len(),
    ensures
        (forall|i: int| 0 <= i < a.len() ==> (#[trigger] a[i]).1.misses == b[i].1.misses) ==> sum_misses(a) == sum_misses(b),
        (forall|i: int| 0 <= i < a.len() ==> (#[trigger] a[i]).1.hits == b[i].1.hits) ==> sum_hits(a) == sum_hits(b),
    decreases a.len(),
{
    if a.len() > 0 {
        let (a0, b0) = (a.drop_last(), b.drop_last());
        lemma_cache_totals_independent(a0, b0);
        if forall|i: int| 0 <= i < a.len() ==> (#[trigger] a[i]).1.misses == b[i].1.misses {
            assert forall|i: int| 0 <= i < a0.len() implies (#[trigger] a0[i]).1.misses == b0[i].1.misses by {
                assert(a0[i] == a[i] && b0[i] == b[i]);
            }
            assert(a[a.len() - 1].1.misses == b[b.len() - 1].1.misses);
        }
        if forall|i: int| 0 <= i < a.len() ==> (#[trigger] a[i]).1.hits == b[i].1.hits {
            assert forall|i: int| 0 <= i < a0.len() implies (#[trigger] a0[i]).1.hits == b0[i].1.hits by {
                assert(a0[i] == a[i] && b0[i] == b[i]);
            }
            assert(a[a.len() - 1].1.hits == b[b.len() - 1].1.hits);
        }
    }
}

proof fn lemma_sum_counts_nonneg(s: Seq<(String, usize)>)
    ensures
        sum_counts(s) >= 0,
    decreases s.len(),
{
    if s.len() > 0 {
        lemma_sum_counts_nonneg(s.drop_last());
    }
}

proof fn lemma_sum_stats_nonneg(s: Seq<(String, CacheStats)>)
    ensures
        sum_hits(s) >= 0,
        sum_misses(s) >= 0,
    decreases s.len(),
{
    if s.len() > 0 {
        lemma_sum_stats_nonneg(s.drop_last());
    }
}

/// Bytes of an optional payload, by their view.
pub open spec fn opt_bytes(o: Option<Vec<u8>>) -> Option<Seq<u8>> {
    match o {
        Some(v) => Some(v@),
        None => None,
    }
}

/// The payload of the first segment with this sequence number in the window of
/// quality `q` of the stream, if the stream and the segment exist.
pub open spec fn stored_segment(
    vm: Map<Seq<char>, Seq<AdaptiveStreamView>>,
    stream_id: Seq<char>,
    q: StreamQuality,
    sequence: u64,
) -> Option<Seq<u8>> {
    if vm.contains_key(stream_id) {
        match find_sequence(vm[stream_id][quality_index(q)].segments, sequence) {
            Some(s) => Some(s.data),
            None => None,
        }
    } else {
        None
    }
}

/// Some node has spare capacity.
pub open spec fn some_available(m: Map<Seq<char>, EdgeNode>) -> bool {
    exists|k: Seq<char>| #[trigger] m.contains_key(k) && m[k].current_load < m[k].capacity
}

/// `n` is a registered node with spare capacity and no available node carries less load.
pub open spec fn least_loaded_available(m: Map<Seq<char>, EdgeNode>, n: EdgeNode) -> bool {
    &&& m.contains_key(n.node_id@)
    &&& m[n.node_id@] == n
    &&& n.current_load < n.capacity
    &&& forall|k: Seq<char>| #[trigger] m.contains_key(k) && m[k].current_load < m[k].capacity ==> n.current_load <= m[k].current_load
}

/// The payload of the first segment of a window with this sequence number.
fn find_in_window(w: &VecDeque<VideoSegment>, sequence: u64) -> (r: Option<Vec<u8>>)
    ensures
        opt_bytes(r) == (match find_sequence(w.deep_view(), sequence) {
            Some(s) => Some(s.data),
            None => None::<Seq<u8>>,
        }),
{
    let ghost dv = w.deep_view();
    assert(dv.skip(0) =~= dv);
    let mut i: usize = 0;
    while i < w.len()
        invariant
            i <= dv.len(),
            dv == w.deep_view(),
            find_sequence(dv, sequence) == find_sequence(dv.skip(i as int), sequence),
        decreases dv.len() - i,
    {
        assert(dv.skip(i as int)[0] == w@[i as int].deep_view());
        if w[i].sequence == sequence {
            let d = w[i].data.clone();
            assert(d@ =~= w@[i as int].data@);
            return Some(d);
        }
        assert(dv.skip(i as int).drop_first() =~= dv.skip(i + 1));
        i = i + 1;
    }
    assert(dv.skip(i as int) =~= Seq::<SegmentView>::empty());
    None
}

/// `after` is `before` after ingesting segment `s` into stream `stream_id` with
/// cache writes `ws`: each rendition gained the segment, the writes are one per
/// rendition in order and went to the in-memory cache; nothing else changed.
pub open spec fn ingested(
    before: &StreamManager,
    after: &StreamManager,
    stream_id: Seq<char>,
    s: SegmentView,
    ws: Seq<(Seq<char>, Seq<u8>)>,
) -> bool {
    &&& after.variants_view() == before.variants_view().insert(stream_id, variants_after(before.variants_view()[stream_id], s))
    &&& ws == writes_for(stream_id, before.variants_view()[stream_id], s)
    &&& after.streams_view() == before.streams_view()
    &&& after.viewers_view() == before.viewers_view()
    &&& after.cache_memory() == puts_all(before.cache_memory(), before.cache_capacity(), ws)
    &&& after.cache_capacity() == before.cache_capacity()
    &&& after.cache_stats() == before.cache_stats()
    &&& after.edge_nodes_view() == before.edge_nodes_view()
    &&& after.edge_manager_state() == before.edge_manager_state()
    &&& after.webrtc_state() == before.webrtc_state()
}

/// `after` is `before` with stream `stream_id` added: new metadata started at
/// `now`, no viewers, the initial renditions; the cache and edge nodes untouched.
pub open spec fn created(
    before: &StreamManager,
    after: &StreamManager,
    stream_id: Seq<char>,
    broadcaster_id: Seq<char>,
    title: Seq<char>,
    now: u64,
) -> bool {
    &&& after.streams_view() == before.streams_view().insert(stream_id, after.streams_view()[stream_id])
    &&& is_new_metadata(after.streams_view()[stream_id], stream_id, broadcaster_id, title, now)
    &&& after.viewers_view() == before.viewers_view().insert(stream_id, 0)
    &&& after.variants_view() == before.variants_view().insert(stream_id, initial_variants())
}

/// One empty rendition per quality, lowest first.
fn new_variants() -> (vs: Vec<AdaptiveStream>)
    ensures
        vs.deep_view() == initial_variants(),
        variants_ok(vs.deep_view()),
{
    let mut vs: Vec<AdaptiveStream> = Vec::new();
    let qs = StreamQuality::all();
    let mut i: usize = 0;
    while i < qs.len()
        invariant
            i <= qs@.len(),
            qs@ == all_qualities(),
            vs.deep_view() == initial_variants().take(i as int),
        decreases qs@.len() - i,
    {
        let q = qs[i];
        let a = AdaptiveStream {
            quality: q,
            bitrate_kbps: q.bitrate_kbps(),
            resolution: q.resolution(),
            segments: VecDeque::with_capacity(DVR_WINDOW_SEGMENTS),
            max_segments: DVR_WINDOW_SEGMENTS,
        };
        proof {
            assert(a.deep_view().segments =~= Seq::<SegmentView>::empty());
        }
        let ghost before = vs.deep_view();
        vs.push(a);
        i = i + 1;
        proof {
            assert(vs.deep_view() =~= before.push(a.deep_view()));
            assert(initial_variants().take(i as int) =~= initial_variants().take(i - 1).push(initial_variant(q)));
            assert(vs.deep_view() =~= initial_variants().take(i as int));
        }
    }
    proof {
        assert(initial_variants().take(4) =~= initial_variants());
    }
    vs
}


/// A segment whose sequence number was not yet in the window of quality `q` is,
/// once ingested, what the rendition fallback of a segment lookup returns for it:
/// its payload cut to quality `q`.
pub proof fn lemma_ingest_then_stored(
    before: &StreamManager,
    after: &StreamManager,
    stream_id: Seq<char>,
    s: SegmentView,
    ws: Seq<(Seq<char>, Seq<u8>)>,
    q: StreamQuality,
)
    requires
        before.wf(),
        before.streams_view().contains_key(stream_id),
        ingested(before, after, stream_id, s, ws),
        find_sequence(before.variants_view()[stream_id][quality_index(q)].segments, s.sequence) is None,
    ensures
        stored_segment(after.variants_view(), stream_id, q, s.sequence) == Some(transcoded(s, q).data),
{
    let vs = before.variants_view()[stream_id];
    let i = quality_index(q);
    lemma_variant_slot(vs, q);
    assert(variants_after(vs, s)[i] == variant_after(vs[i], s));
    lemma_find_pushed(vs[i].segments, transcoded(s, q), DVR_WINDOW_SEGMENTS as nat);
}

/// After an ingest, the in-memory cache holds the payload of the last rendition
/// written under its key.
pub proof fn lemma_ingest_then_cached(
    before: &StreamManager,
    after: &StreamManager,
    stream_id: Seq<char>,
    s: SegmentView,
    ws: Seq<(Seq<char>, Seq<u8>)>,
)
    requires
        before.wf(),
        before.streams_view().contains_key(stream_id),
        ingested(before, after, stream_id, s, ws),
    ensures
        ws.len() == 4,
        ws.last() == (segment_key(stream_id, StreamQuality::Ultra, s.sequence), transcoded(s, StreamQuality::Ultra).data),
        lookup(after.cache_memory(), ws.last().0) == Some(ws.last().1),
{
    let vs = before.variants_view()[stream_id];
    lemma_variant_slot(vs, StreamQuality::Ultra);
    assert(ws.drop_last().len() == 3);
    lemma_put_then_lookup(puts_all(before.cache_memory(), before.cache_capacity(), ws.drop_last()), before.cache_capacity(), ws.last().0, ws.last().1);
}

/// Unsubscribing after subscribing leaves the viewer counts and the metadata of
/// every stream as they were.
pub proof fn lemma_unsubscribe_undoes_subscribe(
    start: &StreamManager,
    subscribed: &StreamManager,
    done: &StreamManager,
    stream_id: Seq<char>,
)
    requires
        start.wf(),
        start.streams_view().contains_key(stream_id),
        start.viewers_view()[stream_id] < usize::MAX,
        viewers_set(start, subscribed, stream_id, (start.viewers_view()[stream_id] + 1) as usize),
        viewers_set(
            subscribed,
            done,
            stream_id,
            (if subscribed.viewers_view()[stream_id] > 0 { subscribed.viewers_view()[stream_id] - 1 } else { 0 }) as usize,
        ),
    ensures
        done.viewers_view() == start.viewers_view(),
        done.streams_view() == start.streams_view(),
{
    assert(done.viewers_view() =~= start.viewers_view());
    assert(done.streams_view()[stream_id] == start.streams_view()[stream_id]);
    assert(done.streams_view() =~= start.streams_view());
}

/// Ending a stream just created under a new id gives back the stream, rendition
/// and viewer tables as they were.
pub proof fn lemma_end_undoes_create(
    before: &StreamManager,
    created_state: &StreamManager,
    after: &StreamManager,
    stream_id: Seq<char>,
    broadcaster_id: Seq<char>,
    title: Seq<char>,
    now: u64,
)
    requires
        !before.streams_view().contains_key(stream_id),
        before.wf(),
        created(before, created_state, stream_id, broadcaster_id, title, now),
        after.streams_view() == created_state.streams_view().remove(stream_id),
        after.variants_view() == created_state.variants_view().remove(stream_id),
        after.viewers_view() == created_state.viewers_view().remove(stream_id),
    ensures
        after.streams_view() == before.streams_view(),
        after.variants_view() == before.variants_view(),
        after.viewers_view() == before.viewers_view(),
{
    assert(!before.variants_view().contains_key(stream_id));
    assert(!before.viewers_view().contains_key(stream_id));
    assert(after.streams_view() =~= before.streams_view());
    assert(after.variants_view() =~= before.variants_view());
    assert(after.viewers_view() =~= before.viewers_view());
}

} // verus!

