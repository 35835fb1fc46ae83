//! CDN management as the HTTP API offers it: edge node registration and choice,
//! cache statistics per stream, edge node health and the busiest streams.

use vstd::prelude::*;
use crate::api::health::seconds_between;
use crate::api::hls::{STATUS_NOT_FOUND, STATUS_SERVICE_UNAVAILABLE};
use crate::cdn::cache::{drop_matching, CacheStats};
use crate::domain::edge_node::EdgeNode;
use crate::domain::stream::StreamMetadata;
use crate::manager::stream_manager::{least_loaded_available, some_available, stream_pattern, StreamManager};
use crate::text::{starts_with, str_starts_with};
use vstd::set_lib::{lemma_int_range, lemma_subset_equality, set_int_range};

verus! {

/// Body of an edge node registration.
#[derive(Debug)]
pub struct RegisterEdgeNodeRequest {
    pub node_id: String,
    pub location: String,
    pub capacity: usize,
}

/// Answer to an edge node registration.
#[derive(Debug)]
pub struct RegisterEdgeNodeResponse {
    pub success: bool,
    pub message: String,
    pub node_id: String,
}

/// Body of an edge node choice for a viewer.
#[derive(Debug)]
pub struct SelectEdgeNodeRequest {
    pub viewer_location: String,
}

/// Registers the requested node, unloaded and with a heartbeat of now.
pub fn register_edge_node(manager: &mut StreamManager, req: RegisterEdgeNodeRequest) -> (r: RegisterEdgeNodeResponse)
    requires
        old(manager).wf(),
    ensures
        final(manager).wf(),
        final(manager).same_streams(&*old(manager)),
        r.success,
        r.message@ == "Edge node registered successfully"@,
        r.node_id@ == req.node_id@,
        final(manager).edge_nodes_view() == old(manager).edge_nodes_view().insert(req.node_id@, final(manager).edge_nodes_view()[req.node_id@]),
        final(manager).edge_nodes_view()[req.node_id@].node_id@ == req.node_id@,
        final(manager).edge_nodes_view()[req.node_id@].location@ == req.location@,
        final(manager).edge_nodes_view()[req.node_id@].capacity == req.capacity,
        final(manager).edge_nodes_view()[req.node_id@].current_load == 0,
{
    let node = EdgeNode::new(req.node_id.clone(), req.location, req.capacity);
    manager.register_edge_node(node);
    RegisterEdgeNodeResponse {
        success: true,
        message: String::from_str("Edge node registered successfully"),
        node_id: req.node_id,
    }
}

/// The public endpoint of an edge node.
pub fn edge_endpoint(node_id: &str) -> (e: String)
    ensures
        e@ == "https://"@ + node_id@ + ".cdn.example.com"@,
{
    let mut e = String::from_str("https://");
    e.append(node_id);
    e.append(".cdn.example.com");
    e
}

/// The edge node for a viewer: an available node with the least load; service
/// unavailable when no node has spare capacity.
pub fn select_edge_node(manager: &StreamManager, req: &SelectEdgeNodeRequest) -> (r: Result<EdgeNode, u16>)
    requires
        manager.wf(),
    ensures
        r is Err <==> !some_available(manager.edge_nodes_view()),
        r matches Err(code) ==> code == STATUS_SERVICE_UNAVAILABLE,
        r matches Ok(n) ==> least_loaded_available(manager.edge_nodes_view(), n),
{
    match manager.select_edge_node(req.viewer_location.as_str()) {
        Some(n) => Ok(n),
        None => Err(STATUS_SERVICE_UNAVAILABLE),
    }
}

/// The entries whose key starts with `prefix`, in order.
pub open spec fn with_prefix(s: Seq<(String, CacheStats)>, prefix: Seq<char>) -> Seq<(String, CacheStats)>
    decreases s.len(),
{
    if s.len() == 0 {
        Seq::empty()
    } else {
        let r = with_prefix(s.drop_last(), prefix);
        if starts_with(s.last().0@, prefix) { r.push(s.last()) } else { r }
    }
}

/// The statistics of one stream's segments (keys starting with `segment:{id}`);
/// not found when there are none.
pub fn stream_cache_stats(all: Vec<(String, CacheStats)>, stream_id: &str) -> (r: Result<Vec<(String, CacheStats)>, u16>)
    ensures
        with_prefix(all@, stream_pattern(stream_id@)).len() == 0 ==> r == Err::<Vec<(String, CacheStats)>, u16>(STATUS_NOT_FOUND),
        with_prefix(all@, stream_pattern(stream_id@)).len() > 0 ==> r is Ok && r->Ok_0@ == with_prefix(all@, stream_pattern(stream_id@)),
{
    let mut pattern = String::from_str("segment:");
    pattern.append(stream_id);
    assert(pattern@ =~= stream_pattern(stream_id@));
    let mut kept: Vec<(String, CacheStats)> = Vec::new();
    let mut i: usize = 0;
    while i < all.len()
        invariant
            i <= all@.len(),
            kept@ == with_prefix(all@.take(i as int), pattern@),
        decreases all@.len() - i,
    {
        proof {
            assert(all@.take(i + 1).drop_last() =~= all@.take(i as int));
        }
        if str_starts_with(all[i].0.as_str(), pattern.as_str()) {
            let e = (all[i].0.clone(), all[i].1);
            assert(e == all@[i as int]);
            kept.push(e);
        }
        i = i + 1;
    }
    assert(all@.take(i as int) =~= all@);
    if kept.len() == 0 {
        Err(STATUS_NOT_FOUND)
    } else {
        Ok(kept)
    }
}

/// Drops a stream's segments from the in-memory cache and returns the confirmation.
pub fn clear_stream_cache(manager: &mut StreamManager, stream_id: &str) -> (m: String)
    requires
        old(manager).wf(),
    ensures
        final(manager).wf(),
        final(manager).same_streams(&*old(manager)),
        final(manager).cache_memory() == drop_matching(old(manager).cache_memory(), stream_pattern(stream_id@)),
        final(manager).cache_capacity() == old(manager).cache_capacity(),
        final(manager).cache_stats() == old(manager).cache_stats(),
        final(manager).edge_nodes_view() == old(manager).edge_nodes_view(),
        m@ == "Cache cleared for stream: "@ + stream_id@,
{
    manager.invalidate_cache(stream_id);
    let mut m = String::from_str("Cache cleared for stream: ");
    m.append(stream_id);
    m
}

/// Heartbeat age, in whole seconds, beyond which a node counts as unhealthy.
pub const HEARTBEAT_HEALTHY_SECONDS: u64 = 30;

/// Health of one edge node as the API reports it.
#[derive(Debug)]
pub struct EdgeNodeStatus {
    pub node_id: String,
    pub location: String,
    pub healthy: bool,
    pub last_heartbeat_seconds: u64,
}

/// A node is healthy while its heartbeat is younger than thirty whole seconds.
pub open spec fn heartbeat_fresh(n: EdgeNode, now: u64) -> bool {
    seconds_between(n.last_heartbeat, now) < HEARTBEAT_HEALTHY_SECONDS
}

/// The health entry of a node at time `now` (nanoseconds since the UNIX epoch).
pub fn node_status(node: &EdgeNode, now: u64) -> (s: EdgeNodeStatus)
    ensures
        s.node_id@ == node.node_id@,
        s.location@ == node.location@,
        s.last_heartbeat_seconds == seconds_between(node.last_heartbeat, now),
        s.healthy == heartbeat_fresh(*node, now),
{
    let age = if now >= node.last_heartbeat { (now - node.last_heartbeat) / 1_000_000_000 } else { 0 };
    EdgeNodeStatus {
        node_id: node.node_id.clone(),
        location: node.location.clone(),
        healthy: age < HEARTBEAT_HEALTHY_SECONDS,
        last_heartbeat_seconds: age,
    }
}

/// Number of nodes with a fresh heartbeat.
pub open spec fn fresh_count(nodes: Seq<EdgeNode>, now: u64) -> nat
    decreases nodes.len(),
{
    if nodes.len() == 0 {
        0
    } else {
        fresh_count(nodes.drop_last(), now) + if heartbeat_fresh(nodes.last(), now) { 1nat } else { 0nat }
    }
}

/// The health entry of every node, in order, and how many are healthy.
pub fn edge_nodes_health(nodes: &Vec<EdgeNode>, now: u64) -> (r: (usize, Vec<EdgeNodeStatus>))
    ensures
        r.0 == fresh_count(nodes@, now),
        r.1@.len() == nodes@.len(),
        forall|i: int| 0 <= i < nodes@.len() ==> {
            &&& (#[trigger] r.1@[i]).node_id@ == nodes@[i].node_id@
            &&& r.1@[i].location@ == nodes@[i].location@
            &&& r.1@[i].healthy == heartbeat_fresh(nodes@[i], now)
            &&& r.1@[i].last_heartbeat_seconds == seconds_between(nodes@[i].last_heartbeat, now)
        },
{
    let mut statuses: Vec<EdgeNodeStatus> = Vec::new();
    let mut healthy: usize = 0;
    let mut i: usize = 0;
    while i < nodes.len()
        invariant
            i <= nodes@.len(),
            healthy == fresh_count(nodes@.take(i as int), now),
            healthy <= i,
            statuses@.len() == i,
            forall|j: int| 0 <= j < i ==> {
                &&& (#[trigger] statuses@[j]).node_id@ == nodes@[j].node_id@
                &&& statuses@[j].location@ == nodes@[j].location@
                &&& statuses@[j].healthy == heartbeat_fresh(nodes@[j], now)
                &&& statuses@[j].last_heartbeat_seconds == seconds_between(nodes@[j].last_heartbeat, now)
            },
        decreases nodes@.len() - i,
    {
        let s = node_status(&nodes[i], now);
        proof {
            assert(nodes@.take(i + 1).drop_last() =~= nodes@.take(i as int));
        }
        if s.healthy {
            healthy = healthy + 1;
        }
        statuses.push(s);
        i = i + 1;
    }
    assert(nodes@.take(i as int) =~= nodes@);
    (healthy, statuses)
}

/// Traffic of one stream: its bitrate and audience.
#[derive(Debug)]
pub struct StreamBandwidth {
    pub stream_id: String,
    pub viewers: usize,
    pub bitrate_kbps: u32,
}

/// Most streams listed among the busiest.
pub const TOP_STREAMS: usize = 10;

/// Outgoing bandwidth of a stream in kbit/s: bitrate times viewers.
pub open spec fn bandwidth_key(m: StreamMetadata) -> int {
    m.bitrate_kbps as int * m.viewers as int
}

/// `order` lists each of the first `n` streams once, by bandwidth, highest first;
/// streams of equal bandwidth keep their relative order.
pub open spec fn is_bandwidth_order(s: Seq<StreamMetadata>, order: Seq<usize>, n: int) -> bool {
    &&& order.len() == n
    &&& forall|i: int| 0 <= i < n ==> #[trigger] order[i] < n
    &&& forall|i: int, j: int| 0 <= i < j < n ==> #[trigger] order[i] != #[trigger] order[j]
    &&& forall|i: int, j: int| 0 <= i < j < n ==> bandwidth_key(s[#[trigger] order[i] as int]) >= bandwidth_key(s[#[trigger] order[j] as int])
    &&& forall|i: int, j: int| 0 <= i < j < n && bandwidth_key(s[#[trigger] order[i] as int]) == bandwidth_key(s[#[trigger] order[j] as int])
        ==> order[i] < order[j]
}

/// A bandwidth order lists every one of the `n` positions.
proof fn lemma_order_covers(s: Seq<StreamMetadata>, o: Seq<usize>, n: int, x: int)
    requires
        is_bandwidth_order(s, o, n),
        0 <= x < n,
    ensures
        exists|j: int| 0 <= j < n && o[j] as int == x,
{
    broadcast use vstd::seq_lib::seq_to_set_is_finite;
    let oi = o.map_values(|v: usize| v as int);
    assert forall|i: int, j: int| 0 <= i < oi.len() && 0 <= j < oi.len() && i != j implies oi[i] != oi[j] by {
        if i < j {
            assert(o[i] != o[j]);
        } else {
            assert(o[j] != o[i]);
        }
    }
    assert(oi.no_duplicates());
    oi.unique_seq_to_set();
    lemma_int_range(0, n);
    assert forall|v: int| oi.to_set().contains(v) implies set_int_range(0, n).contains(v) by {
        let i = choose|i: int| 0 <= i < oi.len() && oi[i] == v;
        assert(o[i] < n);
    }
    lemma_subset_equality(oi.to_set(), set_int_range(0, n));
    assert(set_int_range(0, n).contains(x));
    assert(oi.to_set().contains(x));
    let j = choose|j: int| 0 <= j < oi.len() && oi[j] == x;
    assert(o[j] as int == x);
}

proof fn lemma_orders_agree_upto(s: Seq<StreamMetadata>, o1: Seq<usize>, o2: Seq<usize>, n: int, i: int)
    requires
        is_bandwidth_order(s, o1, n),
        is_bandwidth_order(s, o2, n),
        0 <= i <= n,
    ensures
        forall|k: int| 0 <= k < i ==> o1[k] == o2[k],
    decreases i,
{
    if i > 0 {
        lemma_orders_agree_upto(s, o1, o2, n, i - 1);
        let k = i - 1;
        let a = o1[k];
        let b = o2[k];
        if a != b {
            lemma_order_covers(s, o1, n, b as int);
            let j = choose|j: int| 0 <= j < n && o1[j] as int == b as int;
            if j < k {
                assert(o2[j] == o1[j]);
                assert(o2[j] != o2[k]);
            }
            assert(j != k);
            lemma_order_covers(s, o2, n, a as int);
            let l = choose|l: int| 0 <= l < n && o2[l] as int == a as int;
            if l < k {
                assert(o1[l] == o2[l]);
                assert(o1[l] != o1[k]);
            }
            assert(l != k);
            assert(bandwidth_key(s[o1[k] as int]) >= bandwidth_key(s[o1[j] as int]));
            assert(bandwidth_key(s[o2[k] as int]) >= bandwidth_key(s[o2[l] as int]));
            assert(o1[k] < o1[j]);
            assert(o2[k] < o2[l]);
        }
    }
}

/// Only one order of the streams has all three properties: each position once,
/// highest bandwidth first, ties in list order. So `top_streams` has exactly one
/// possible result.
pub proof fn lemma_bandwidth_order_unique(s: Seq<StreamMetadata>, o1: Seq<usize>, o2: Seq<usize>, n: int)
    requires
        is_bandwidth_order(s, o1, n),
        is_bandwidth_order(s, o2, n),
    ensures
        o1 == o2,
{
    lemma_orders_agree_upto(s, o1, o2, n, n);
    assert(o1 =~= o2);
}

fn bandwidth(m: &StreamMetadata) -> (b: u128)
    ensures
        b == bandwidth_key(*m),
{
    assert(m.bitrate_kbps as int * m.viewers as int <= u32::MAX as int * u64::MAX as int) by (nonlinear_arith)
        requires
            m.bitrate_kbps <= u32::MAX,
            m.viewers <= u64::MAX,
    ;
    (m.bitrate_kbps as u128) * (m.viewers as u128)
}

/// Positions of the streams by bandwidth, highest first, ties in list order.
fn bandwidth_order(streams: &Vec<StreamMetadata>) -> (order: Vec<usize>)
    ensures
        is_bandwidth_order(streams@, order@, streams@.len() as int),
{
    let mut order: Vec<usize> = Vec::new();
    let mut k: usize = 0;
    while k < streams.len()
        invariant
            k <= streams@.len(),
            is_bandwidth_order(streams@, order@, k as int),
        decreases streams@.len() - k,
    {
        let key = bandwidth(&streams[k]);
        let mut p: usize = 0;
        while p < order.len() && bandwidth(&streams[order[p]]) >= key
            invariant
                p <= order@.len(),
                order@.len() == k,
                k < streams@.len(),
                key == bandwidth_key(streams@[k as int]),
                is_bandwidth_order(streams@, order@, k as int),
                forall|j: int| 0 <= j < p ==> bandwidth_key(streams@[#[trigger] order@[j] as int]) >= key,
            decreases order@.len() - p,
        {
            p = p + 1;
        }
        let ghost o = order@;
        order.insert(p, k);
        proof {
            let n = k as int + 1;
            assert(forall|x: int| 0 <= x < n ==> #[trigger] order@[x] == (if x < p { o[x] } else if x == p { k } else { o[x - 1] }));
            assert forall|i: int, j: int| 0 <= i < j < n implies #[trigger] order@[i] != #[trigger] order@[j] by {
                if i != p as int && j != p as int {
                    let i2 = if i < p { i } else { i - 1 };
                    let j2 = if j < p { j } else { j - 1 };
                    assert(o[i2] != o[j2]);
                }
            }
            assert forall|i: int, j: int| 0 <= i < j < n implies bandwidth_key(streams@[#[trigger] order@[i] as int])
                >= bandwidth_key(streams@[#[trigger] order@[j] as int]) by {
                let i2 = if i < p { i } else { i - 1 };
                let j2 = if j < p { j } else { j - 1 };
                if j == p as int {
                    assert(bandwidth_key(streams@[o[i] as int]) >= key);
                } else if i == p as int {
                    assert(p < o.len());
                    assert(!(bandwidth_key(streams@[o[p as int] as int]) >= key));
                    if j2 > p {
                        assert(bandwidth_key(streams@[o[p as int] as int]) >= bandwidth_key(streams@[o[j2] as int]));
                    }
                } else {
                    assert(bandwidth_key(streams@[o[i2] as int]) >= bandwidth_key(streams@[o[j2] as int]));
                }
            }
            assert forall|i: int, j: int| 0 <= i < j < n && bandwidth_key(streams@[#[trigger] order@[i] as int])
                == bandwidth_key(streams@[#[trigger] order@[j] as int]) implies order@[i] < order@[j] by {
                let i2 = if i < p { i } else { i - 1 };
                let j2 = if j < p { j } else { j - 1 };
                if j == p as int {
                    assert(o[i] < k);
                } else if i == p as int {
                    assert(p < o.len());
                    assert(!(bandwidth_key(streams@[o[p as int] as int]) >= key));
                    if j2 > p {
                        assert(bandwidth_key(streams@[o[p as int] as int]) >= bandwidth_key(streams@[o[j2] as int]));
                    }
                } else {
                    assert(bandwidth_key(streams@[o[i2] as int]) == bandwidth_key(streams@[o[j2] as int]));
                }
            }
        }
        k = k + 1;
    }
    order
}

/// The busiest streams, at most ten, by bandwidth, highest first; streams of
/// equal bandwidth keep their list order.
pub fn top_streams(streams: &Vec<StreamMetadata>) -> (top: Vec<StreamBandwidth>)
    ensures
        exists|order: Seq<usize>| #[trigger] is_bandwidth_order(streams@, order, streams@.len() as int)
            && top@.len() == (if streams@.len() < TOP_STREAMS { streams@.len() } else { TOP_STREAMS as nat })
            && forall|i: int| 0 <= i < top@.len() ==> {
                &&& (#[trigger] top@[i]).stream_id@ == streams@[order[i] as int].stream_id@
                &&& top@[i].viewers == streams@[order[i] as int].viewers
                &&& top@[i].bitrate_kbps == streams@[order[i] as int].bitrate_kbps
            },
{
    let order = bandwidth_order(streams);
    let limit = if order.len() < TOP_STREAMS { order.len() } else { TOP_STREAMS };
    let mut top: Vec<StreamBandwidth> = Vec::new();
    let mut i: usize = 0;
    while i < limit
        invariant
            i <= limit,
            limit <= order@.len(),
            order@.len() == streams@.len(),
            is_bandwidth_order(streams@, order@, streams@.len() as int),
            top@.len() == i,
            forall|t: int| 0 <= t < i ==> {
                &&& (#[trigger] top@[t]).stream_id@ == streams@[order@[t] as int].stream_id@
                &&& top@[t].viewers == streams@[order@[t] as int].viewers
                &&& top@[t].bitrate_kbps == streams@[order@[t] as int].bitrate_kbps
            },
        decreases limit - i,
    {
        let m = &streams[order[i]];
        top.push(StreamBandwidth { stream_id: m.stream_id.clone(), viewers: m.viewers, bitrate_kbps: m.bitrate_kbps });
        i = i + 1;
    }
    assert(is_bandwidth_order(streams@, order@, streams@.len() as int));
    top
}

} // verus!
