//! Registry of CDN edge nodes: registration, heartbeats, health checks and
//! the choice of a node for a viewer under the configured strategy.

use vstd::prelude::*;
use dashmap::DashMap;
use crate::domain::edge_node::EdgeNode;
use crate::outside::{entry_views, is_entry_snapshot, now_nanos, random_u64};
use crate::tables::{
    node_table, node_table_entries, node_table_get, node_table_insert, node_table_new,
    node_table_remove, region_table, region_table_entries, region_table_get, region_table_insert,
    region_table_len, region_table_new,
};
use crate::text::{starts_with, str_eq, str_starts_with};
use crate::cdn::selection::{
    random_choice, round_robin_choice, weighted_choice, total_spare, weighted_from,
    alternatives_for, default_health_config, lemma_total_spare_bounds, heartbeat_expired, is_healthy, least_loaded_choice,
    node_healthy, other_ids, first_n, ids_except, overloaded, pick_least_loaded, pick_random, pick_round_robin,
    pick_weighted, views, chooses, less_loaded, lemma_least_loaded_minimal, distinct_ids, least_loaded_index, lemma_alternatives_count, lemma_alternatives_for, lemma_alternatives_distinct, HealthCheckConfig, NodeSelection, SelectionReason,
};

verus! {

/// How a node is chosen for a viewer.
#[derive(Debug, Clone, Copy, PartialEq, Eq, Structural)]
pub enum LoadBalancingStrategy {
    /// Round-robin distribution
    RoundRobin,
    /// Least connections (least loaded node)
    LeastConnections,
    /// Geographic proximity (closest node)
    Geographic,
    /// Weighted by spare capacity
    Weighted,
    /// Random selection
    Random,
}

/// Statistics of one node. Times are in nanoseconds since the UNIX epoch.
#[derive(Debug)]
pub struct EdgeNodeStats {
    pub node_id: String,
    pub location: String,
    pub total_requests: u64,
    pub active_connections: usize,
    pub uptime_seconds: u64,
    pub last_heartbeat: u64,
}

/// Cluster-wide totals.
#[derive(Debug, Clone, Copy)]
pub struct ClusterStats {
    pub total_nodes: usize,
    pub healthy_nodes: usize,
    pub total_capacity: usize,
    pub used_capacity: usize,
    pub available_capacity: usize,
    pub regions: usize,
}

/// Outcome of a health check over all nodes.
#[derive(Debug)]
pub struct HealthCheckReport {
    pub healthy_nodes: Vec<String>,
    pub unhealthy_nodes: Vec<(String, String)>,
}

impl HealthCheckReport {
    pub fn total_nodes(&self) -> (n: usize)
        requires
            self.healthy_nodes.len() + self.unhealthy_nodes.len() <= usize::MAX,
        ensures
            n == self.healthy_nodes.len() + self.unhealthy_nodes.len(),
    {
        self.healthy_nodes.len() + self.unhealthy_nodes.len()
    }
}

/// Registry of edge nodes and the regions they serve.
pub struct EdgeNodeManager {
    /// Active edge nodes, keyed by node id
    nodes: DashMap<String, EdgeNode>,
    /// Node ids of each region, in registration order
    regions: DashMap<String, Vec<String>>,
    /// Load balancing strategy
    strategy: LoadBalancingStrategy,
    /// Health check configuration
    health_config: HealthCheckConfig,
}

// ---------------------------------------------------------------------------
// Specifications over snapshots of the node table
// ---------------------------------------------------------------------------

/// The nodes of a snapshot, in snapshot order.
pub open spec fn nodes_of(s: Seq<(String, EdgeNode)>) -> Seq<EdgeNode> {
    s.map_values(|e: (String, EdgeNode)| e.1)
}

/// The healthy nodes of a snapshot at time `now`, in snapshot order.
pub open spec fn healthy_of(s: Seq<(String, EdgeNode)>, cfg: HealthCheckConfig, now: u64) -> Seq<EdgeNode>
    decreases s.len(),
{
    if s.len() == 0 {
        Seq::empty()
    } else {
        let r = healthy_of(s.drop_last(), cfg, now);
        if node_healthy(cfg, s.last().1, now) { r.push(s.last().1) } else { r }
    }
}

/// Some registered node is healthy at `now`.
pub open spec fn some_healthy(m: Map<Seq<char>, EdgeNode>, cfg: HealthCheckConfig, now: u64) -> bool {
    exists|k: Seq<char>| #[trigger] m.contains_key(k) && node_healthy(cfg, m[k], now)
}

/// `n` is the registered node under its own id and is healthy at `now`.
pub open spec fn healthy_member(m: Map<Seq<char>, EdgeNode>, cfg: HealthCheckConfig, now: u64, n: EdgeNode) -> bool {
    &&& m.contains_key(n.node_id@)
    &&& m[n.node_id@] == n
    &&& node_healthy(cfg, n, now)
}

/// What every strategy promises: a chosen node is a healthy registered node, and
/// nothing is chosen exactly when no registered node is healthy.
pub open spec fn selection_sound(m: Map<Seq<char>, EdgeNode>, cfg: HealthCheckConfig, now: u64, res: Option<NodeSelection>) -> bool {
    &&& res is None <==> !some_healthy(m, cfg, now)
    &&& res matches Some(sel) ==> healthy_member(m, cfg, now, sel.node)
}

/// Node ids listed for a region (none for an unknown region).
pub open spec fn region_ids(r: Map<Seq<char>, Seq<String>>, loc: Seq<char>) -> Seq<String> {
    if r.contains_key(loc) { r[loc] } else { Seq::empty() }
}

/// From position `i` of `ids`, the first id naming a registered node that is healthy; -1 if none.
pub open spec fn listed_from(m: Map<Seq<char>, EdgeNode>, ids: Seq<String>, cfg: HealthCheckConfig, now: u64, i: int) -> int
    decreases ids.len() - i,
{
    if i < 0 || i >= ids.len() {
        -1
    } else if m.contains_key(ids[i]@) && node_healthy(cfg, m[ids[i]@], now) {
        i
    } else {
        listed_from(m, ids, cfg, now, i + 1)
    }
}

/// Position in the list of region `loc` of its first healthy registered node; -1 if none.
pub open spec fn home_pick(m: Map<Seq<char>, EdgeNode>, r: Map<Seq<char>, Seq<String>>, loc: Seq<char>, cfg: HealthCheckConfig, now: u64) -> int {
    listed_from(m, region_ids(r, loc), cfg, now, 0)
}

/// The first healthy registered node listed for region `loc`.
pub open spec fn region_pick(m: Map<Seq<char>, EdgeNode>, r: Map<Seq<char>, Seq<String>>, loc: Seq<char>, cfg: HealthCheckConfig, now: u64) -> EdgeNode {
    m[region_ids(r, loc)[home_pick(m, r, loc, cfg, now)]@]
}

/// A position found by `listed_from` holds a healthy registered node.
pub proof fn lemma_listed_from(m: Map<Seq<char>, EdgeNode>, ids: Seq<String>, cfg: HealthCheckConfig, now: u64, i: int)
    requires
        0 <= i,
    ensures
        listed_from(m, ids, cfg, now, i) >= 0 ==> {
            let k = listed_from(m, ids, cfg, now, i);
            &&& i <= k < ids.len()
            &&& m.contains_key(ids[k]@)
            &&& node_healthy(cfg, m[ids[k]@], now)
        },
    decreases ids.len() - i,
{
    if i < ids.len() {
        lemma_listed_from(m, ids, cfg, now, i + 1);
    }
}

/// Position of the first `-` in `s`, from `i` on; `s.len()` if there is none.
pub open spec fn dash_from(s: Seq<char>, i: int) -> int
    decreases s.len() - i,
{
    if i < 0 || i >= s.len() {
        s.len() as int
    } else if s[i] == '-' {
        i
    } else {
        dash_from(s, i + 1)
    }
}

/// The part of a location before its first `-`.
pub open spec fn region_prefix(loc: Seq<char>) -> Seq<char> {
    loc.subrange(0, dash_from(loc, 0))
}

/// Some region's name starts with `p`.
pub open spec fn some_region_prefixed(r: Map<Seq<char>, Seq<String>>, p: Seq<char>) -> bool {
    exists|k: Seq<char>| #[trigger] r.contains_key(k) && starts_with(k, p)
}

/// A valid answer to "closest region": a region whose name starts with the viewer's
/// prefix if there is one, else a region that lists some node, else none.
pub open spec fn closest_region_ok(r: Map<Seq<char>, Seq<String>>, loc: Seq<char>, res: Option<String>) -> bool {
    let p = region_prefix(loc);
    match res {
        Some(c) => r.contains_key(c@) && if some_region_prefixed(r, p) {
            starts_with(c@, p)
        } else {
            r[c@].len() > 0
        },
        None => !some_region_prefixed(r, p) && forall|k: Seq<char>| #[trigger] r.contains_key(k) ==> r[k].len() == 0,
    }
}

/// `ids` without any occurrence of `id`.
pub open spec fn without_id(ids: Seq<String>, id: Seq<char>) -> Seq<String>
    decreases ids.len(),
{
    if ids.len() == 0 {
        Seq::empty()
    } else {
        let r = without_id(ids.drop_last(), id);
        if ids.last()@ != id { r.push(ids.last()) } else { r }
    }
}

/// Sum of capacities in a snapshot.
pub open spec fn sum_capacity(s: Seq<(String, EdgeNode)>) -> int
    decreases s.len(),
{
    if s.len() == 0 { 0 } else { sum_capacity(s.drop_last()) + s.last().1.capacity }
}

/// Sum of loads in a snapshot.
pub open spec fn sum_load(s: Seq<(String, EdgeNode)>) -> int
    decreases s.len(),
{
    if s.len() == 0 { 0 } else { sum_load(s.drop_last()) + s.last().1.current_load }
}

pub open spec fn capped(x: int) -> int {
    if x > usize::MAX { usize::MAX as int } else { x }
}

/// Why an unhealthy node is unhealthy.
pub open spec fn unhealthy_reason(cfg: HealthCheckConfig, n: EdgeNode, now: u64) -> Seq<char> {
    if heartbeat_expired(cfg, n, now) {
        "Heartbeat timeout"@
    } else if overloaded(cfg, n) {
        "Overloaded"@
    } else {
        "Unavailable"@
    }
}

/// Ids of the healthy nodes of a snapshot, in order.
pub open spec fn healthy_ids(s: Seq<(String, EdgeNode)>, cfg: HealthCheckConfig, now: u64) -> Seq<Seq<char>>
    decreases s.len(),
{
    if s.len() == 0 {
        Seq::empty()
    } else {
        let r = healthy_ids(s.drop_last(), cfg, now);
        if node_healthy(cfg, s.last().1, now) { r.push(s.last().1.node_id@) } else { r }
    }
}

/// Ids and reasons of the unhealthy nodes of a snapshot, in order.
pub open spec fn unhealthy_list(s: Seq<(String, EdgeNode)>, cfg: HealthCheckConfig, now: u64) -> Seq<(Seq<char>, Seq<char>)>
    decreases s.len(),
{
    if s.len() == 0 {
        Seq::empty()
    } else {
        let r = unhealthy_list(s.drop_last(), cfg, now);
        if node_healthy(cfg, s.last().1, now) {
            r
        } else {
            r.push((s.last().1.node_id@, unhealthy_reason(cfg, s.last().1, now)))
        }
    }
}

pub open spec fn pair_views(v: Seq<(String, String)>) -> Seq<(Seq<char>, Seq<char>)> {
    v.map_values(|p: (String, String)| (p.0@, p.1@))
}

/// Elements of `healthy_of` are healthy entries of the snapshot, and every healthy
/// entry is among them.
pub proof fn lemma_healthy_of(s: Seq<(String, EdgeNode)>, cfg: HealthCheckConfig, now: u64)
    ensures
        forall|i: int| 0 <= i < healthy_of(s, cfg, now).len() ==> node_healthy(cfg, #[trigger] healthy_of(s, cfg, now)[i], now)
            && exists|j: int| 0 <= j < s.len() && s[j].1 == healthy_of(s, cfg, now)[i],
        forall|j: int| 0 <= j < s.len() && node_healthy(cfg, #[trigger] s[j].1, now) ==>
            exists|i: int| 0 <= i < healthy_of(s, cfg, now).len() && healthy_of(s, cfg, now)[i] == s[j].1,
        healthy_of(s, cfg, now).len() <= s.len(),
    decreases s.len(),
{
    if s.len() > 0 {
        let t = s.drop_last();
        lemma_healthy_of(t, cfg, now);
        let h = healthy_of(s, cfg, now);
        let ht = healthy_of(t, cfg, now);
        assert forall|i: int| 0 <= i < h.len() implies node_healthy(cfg, #[trigger] h[i], now)
            && exists|j: int| 0 <= j < s.len() && s[j].1 == h[i] by {
            if i < ht.len() {
                assert(h[i] == ht[i]);
                let j = choose|j: int| 0 <= j < t.len() && t[j].1 == ht[i];
                assert(s[j] == t[j]);
            } else {
                assert(s[s.len() - 1].1 == h[i]);
            }
        }
        assert forall|j: int| 0 <= j < s.len() && node_healthy(cfg, #[trigger] s[j].1, now) implies
            exists|i: int| 0 <= i < h.len() && h[i] == s[j].1 by {
            if j < t.len() {
                assert(t[j] == s[j]);
                let i = choose|i: int| 0 <= i < ht.len() && ht[i] == t[j].1;
                assert(h[i] == ht[i]);
            } else {
                assert(h[h.len() - 1] == s[j].1);
            }
        }
    }
}

/// Over entries under distinct keys, each node stored under its own id, the
/// healthy nodes carry distinct ids.
proof fn lemma_healthy_distinct_entries(s: Seq<(String, EdgeNode)>, cfg: HealthCheckConfig, now: u64)
    requires
        forall|i: int, j: int| 0 <= i < j < s.len() ==> #[trigger] s[i].0@ != #[trigger] s[j].0@,
        forall|i: int| 0 <= i < s.len() ==> (#[trigger] s[i]).1.node_id@ == s[i].0@,
    ensures
        distinct_ids(healthy_of(s, cfg, now)),
    decreases s.len(),
{
    if s.len() > 0 {
        let t = s.drop_last();
        assert forall|i: int, j: int| 0 <= i < j < t.len() implies #[trigger] t[i].0@ != #[trigger] t[j].0@ by {
            assert(t[i] == s[i] && t[j] == s[j]);
        }
        assert forall|i: int| 0 <= i < t.len() implies (#[trigger] t[i]).1.node_id@ == t[i].0@ by {
            assert(t[i] == s[i]);
        }
        lemma_healthy_distinct_entries(t, cfg, now);
        lemma_healthy_of(t, cfg, now);
        let h = healthy_of(s, cfg, now);
        let ht = healthy_of(t, cfg, now);
        let last = s.len() - 1;
        assert(s[last].1.node_id@ == s[last].0@);
        assert forall|i: int, j: int| 0 <= i < j < h.len() implies #[trigger] h[i].node_id@ != #[trigger] h[j].node_id@ by {
            if j < ht.len() {
                assert(h[i] == ht[i] && h[j] == ht[j]);
            } else {
                assert(h[i] == ht[i]);
                assert(h[j] == s[last].1);
                let k = choose|k: int| 0 <= k < t.len() && t[k].1 == ht[i];
                assert(t[k] == s[k]);
                assert(s[k].1.node_id@ == s[k].0@);
                assert(s[k].0@ != s[last].0@);
            }
        }
    }
}

/// The healthy nodes of any snapshot of the registry carry distinct ids.
pub proof fn lemma_healthy_ids_distinct(mgr: &EdgeNodeManager, s: Seq<(String, EdgeNode)>, now: u64)
    requires
        mgr.wf(),
        is_entry_snapshot(mgr.nodes_view(), s),
    ensures
        distinct_ids(healthy_of(s, mgr.config(), now)),
{
    let m = mgr.nodes_view();
    assert forall|i: int| 0 <= i < s.len() implies (#[trigger] s[i]).1.node_id@ == s[i].0@ by {
        assert(m.contains_key(s[i].0@));
    }
    lemma_healthy_distinct_entries(s, mgr.config(), now);
}

/// A least-loaded pick offers as alternatives distinct ids of other healthy
/// nodes, as many as `min(3, healthy - 1)`.
pub proof fn lemma_least_loaded_alternatives(mgr: &EdgeNodeManager, s: Seq<(String, EdgeNode)>, now: u64, sel: NodeSelection)
    requires
        mgr.wf(),
        is_entry_snapshot(mgr.nodes_view(), s),
        least_loaded_choice(healthy_of(s, mgr.config(), now), Some(sel)),
    ensures
        sel.alternatives@.len() == {
            let n = healthy_of(s, mgr.config(), now).len() - 1;
            if n < 3 { n } else { 3 }
        },
        forall|i: int| 0 <= i < sel.alternatives@.len() ==> (#[trigger] sel.alternatives@[i])@ != sel.node.node_id@
            && exists|j: int| 0 <= j < healthy_of(s, mgr.config(), now).len()
                && healthy_of(s, mgr.config(), now)[j].node_id@ == sel.alternatives@[i]@,
        forall|i: int, j: int| 0 <= i < j < sel.alternatives@.len() ==>
            (#[trigger] sel.alternatives@[i])@ != (#[trigger] sel.alternatives@[j])@,
{
    let h = healthy_of(s, mgr.config(), now);
    lemma_healthy_ids_distinct(mgr, s, now);
    let k = least_loaded_index(h);
    lemma_alternatives_count(h, k);
    lemma_alternatives_for(h, h[k].node_id@);
    let a = views(sel.alternatives@);
    assert(a.len() == sel.alternatives@.len());
    assert forall|i: int| 0 <= i < sel.alternatives@.len() implies (#[trigger] sel.alternatives@[i])@ != sel.node.node_id@
        && exists|j: int| 0 <= j < h.len() && h[j].node_id@ == sel.alternatives@[i]@ by {
        assert(a[i] == sel.alternatives@[i]@);
    }
    assert forall|i: int, j: int| 0 <= i < j < sel.alternatives@.len() implies
        (#[trigger] sel.alternatives@[i])@ != (#[trigger] sel.alternatives@[j])@ by {
        assert(a[i] == sel.alternatives@[i]@ && a[j] == sel.alternatives@[j]@);
    }
}

/// Removing an id from a list leaves no occurrence of it, keeps every other
/// entry, and adds nothing.
pub proof fn lemma_without_id(ids: Seq<String>, id: Seq<char>)
    ensures
        without_id(ids, id).len() <= ids.len(),
        forall|i: int| 0 <= i < without_id(ids, id).len() ==> (#[trigger] without_id(ids, id)[i])@ != id
            && ids.contains(without_id(ids, id)[i]),
        forall|j: int| 0 <= j < ids.len() && (#[trigger] ids[j])@ != id ==> without_id(ids, id).contains(ids[j]),
    decreases ids.len(),
{
    if ids.len() > 0 {
        let t = ids.drop_last();
        lemma_without_id(t, id);
        let r = without_id(ids, id);
        let rt = without_id(t, id);
        assert forall|i: int| 0 <= i < r.len() implies (#[trigger] r[i])@ != id && ids.contains(r[i]) by {
            if i < rt.len() {
                assert(r[i] == rt[i]);
                let k = choose|k: int| 0 <= k < t.len() && t[k] == rt[i];
                assert(ids[k] == t[k]);
            } else {
                assert(r[i] == ids[ids.len() - 1]);
            }
        }
        assert forall|j: int| 0 <= j < ids.len() && (#[trigger] ids[j])@ != id implies r.contains(ids[j]) by {
            if j < t.len() {
                assert(t[j] == ids[j]);
                let k = choose|k: int| 0 <= k < rt.len() && rt[k] == t[j];
                assert(r[k] == rt[k]);
            } else {
                assert(r[r.len() - 1] == ids[j]);
            }
        }
    }
}

/// Over a snapshot of a well-formed table, the healthy list is empty exactly when no
/// registered node is healthy, and each of its nodes is a healthy member.
pub proof fn lemma_healthy_snapshot(m: Map<Seq<char>, EdgeNode>, s: Seq<(String, EdgeNode)>, cfg: HealthCheckConfig, now: u64)
    requires
        is_entry_snapshot(m, s),
        forall|k: Seq<char>| #[trigger] m.contains_key(k) ==> m[k].node_id@ == k,
    ensures
        healthy_of(s, cfg, now).len() == 0 <==> !some_healthy(m, cfg, now),
        forall|i: int| 0 <= i < healthy_of(s, cfg, now).len() ==> healthy_member(m, cfg, now, #[trigger] healthy_of(s, cfg, now)[i]),
{
    lemma_healthy_of(s, cfg, now);
    let h = healthy_of(s, cfg, now);
    assert forall|i: int| 0 <= i < h.len() implies healthy_member(m, cfg, now, #[trigger] h[i]) by {
        let j = choose|j: int| 0 <= j < s.len() && s[j].1 == h[i];
        assert(m.contains_key(s[j].0@));
    }
    if some_healthy(m, cfg, now) {
        let k = choose|k: Seq<char>| #[trigger] m.contains_key(k) && node_healthy(cfg, m[k], now);
        let j = choose|j: int| 0 <= j < s.len() && #[trigger] s[j].0@ == k;
        assert(node_healthy(cfg, s[j].1, now));
    }
    if h.len() > 0 {
        assert(healthy_member(m, cfg, now, h[0]));
        assert(m.contains_key(h[0].node_id@));
    }
}

impl EdgeNodeManager {
    /// The registered nodes, keyed by node id.
    pub closed spec fn nodes_view(&self) -> Map<Seq<char>, EdgeNode> {
        node_table(self.nodes)
    }

    /// The node ids listed for each region.
    pub closed spec fn regions_view(&self) -> Map<Seq<char>, Seq<String>> {
        region_table(self.regions)
    }

    pub closed spec fn strategy_view(&self) -> LoadBalancingStrategy {
        self.strategy
    }

    pub closed spec fn config(&self) -> HealthCheckConfig {
        self.health_config
    }

    /// What the least-loaded choice at time `now` gives: a sound choice, namely the
    /// first node of least load among the nodes healthy then, in some iteration
    /// order of the table, with up to three alternatives.
    pub open spec fn least_loaded_at(&self, now: u64, res: Option<NodeSelection>) -> bool {
        &&& selection_sound(self.nodes_view(), self.config(), now, res)
        &&& exists|s: Seq<(String, EdgeNode)>| #[trigger] is_entry_snapshot(self.nodes_view(), s)
            && least_loaded_choice(healthy_of(s, self.config(), now), res)
        &&& res matches Some(sel) ==> alternatives_ok(self.nodes_view(), self.config(), now, sel)
    }

    /// What the geographic choice for a viewer at `loc` at time `now` gives: the first
    /// healthy node listed for the viewer's region; else the first healthy node listed
    /// for a closest region; else the least-loaded choice. A geographic pick offers
    /// up to three other healthy nodes as alternatives.
    pub open spec fn geography_at(&self, loc: Seq<char>, now: u64, res: Option<NodeSelection>) -> bool {
        let m = self.nodes_view();
        let home = region_ids(self.regions_view(), loc);
        let k = listed_from(m, home, self.config(), now, 0);
        &&& selection_sound(m, self.config(), now, res)
        &&& res matches Some(sel) ==> alternatives_ok(m, self.config(), now, sel)
        &&& k >= 0 ==> (res matches Some(sel) && sel.reason == SelectionReason::Geographic && sel.node == m[home[k]@])
        &&& res matches Some(sel) ==> sel.reason == SelectionReason::Geographic || sel.reason == SelectionReason::LeastLoaded
        &&& res matches Some(sel) ==> (sel.reason == SelectionReason::Geographic
            && home_pick(m, self.regions_view(), loc, self.config(), now) < 0
            ==> exists|c: String| #[trigger] closest_region_ok(self.regions_view(), loc, Some(c))
                && home_pick(m, self.regions_view(), c@, self.config(), now) >= 0
                && sel.node == region_pick(m, self.regions_view(), c@, self.config(), now))
        &&& res matches Some(sel) ==> (sel.reason == SelectionReason::Geographic ==>
            exists|s: Seq<(String, EdgeNode)>| #[trigger] is_entry_snapshot(m, s)
                && views(sel.alternatives@) == alternatives_for(healthy_of(s, self.config(), now), sel.node.node_id@))
        &&& res matches Some(sel) ==> (sel.reason == SelectionReason::LeastLoaded ==> {
            &&& home_pick(m, self.regions_view(), loc, self.config(), now) < 0
            &&& exists|c: Option<String>| #[trigger] closest_region_ok(self.regions_view(), loc, c)
                && (c is None || home_pick(m, self.regions_view(), c->0@, self.config(), now) < 0)
            &&& exists|s: Seq<(String, EdgeNode)>| #[trigger] is_entry_snapshot(m, s)
                && least_loaded_choice(healthy_of(s, self.config(), now), res)
        })
    }

    /// What the weighted choice at time `now` for the draw `r` gives.
    pub open spec fn weighted_at(&self, now: u64, r: u64, res: Option<NodeSelection>) -> bool {
        &&& selection_sound(self.nodes_view(), self.config(), now, res)
        &&& exists|s: Seq<(String, EdgeNode)>| #[trigger] is_entry_snapshot(self.nodes_view(), s)
            && weighted_choice(healthy_of(s, self.config(), now), r, res)
    }

    /// What the round-robin choice at time `now` gives.
    pub open spec fn round_robin_at(&self, now: u64, res: Option<NodeSelection>) -> bool {
        &&& selection_sound(self.nodes_view(), self.config(), now, res)
        &&& exists|s: Seq<(String, EdgeNode)>| #[trigger] is_entry_snapshot(self.nodes_view(), s)
            && round_robin_choice(healthy_of(s, self.config(), now), now, res)
    }

    /// What the uniform choice at time `now` for the draw `r` gives.
    pub open spec fn random_at(&self, now: u64, r: u64, res: Option<NodeSelection>) -> bool {
        &&& selection_sound(self.nodes_view(), self.config(), now, res)
        &&& exists|s: Seq<(String, EdgeNode)>| #[trigger] is_entry_snapshot(self.nodes_view(), s)
            && random_choice(healthy_of(s, self.config(), now), r, res)
    }

    /// What the configured strategy chooses for a viewer at `loc` at time `now` with
    /// the draw `r`.
    pub open spec fn node_choice_at(&self, loc: Seq<char>, now: u64, r: u64, res: Option<NodeSelection>) -> bool {
        match self.strategy_view() {
            LoadBalancingStrategy::LeastConnections => self.least_loaded_at(now, res),
            LoadBalancingStrategy::Geographic => self.geography_at(loc, now, res),
            LoadBalancingStrategy::Weighted => self.weighted_at(now, r, res),
            LoadBalancingStrategy::RoundRobin => self.round_robin_at(now, res),
            LoadBalancingStrategy::Random => self.random_at(now, r, res),
        }
    }

    /// What a health check at time `now` reports: in some iteration order of the
    /// table, the ids of the healthy nodes and each unhealthy node's id with the
    /// first check it fails; together they count every node.
    pub open spec fn health_check_at(&self, now: u64, report: HealthCheckReport) -> bool {
        &&& report.healthy_nodes@.len() + report.unhealthy_nodes@.len() == self.nodes_view().dom().len()
        &&& exists|s: Seq<(String, EdgeNode)>| #[trigger] is_entry_snapshot(self.nodes_view(), s) && {
            &&& views(report.healthy_nodes@) == healthy_ids(s, self.config(), now)
            &&& pair_views(report.unhealthy_nodes@) == unhealthy_list(s, self.config(), now)
        }
    }

    /// Each node is stored under its own id; both tables are finite.
    pub closed spec fn wf(&self) -> bool {
        &&& self.nodes_view().dom().finite()
        &&& self.regions_view().dom().finite()
        &&& forall|k: Seq<char>| #[trigger] self.nodes_view().contains_key(k) ==> self.nodes_view()[k].node_id@ == k
    }

    /// An empty registry with the default health thresholds.
    pub fn new(strategy: LoadBalancingStrategy) -> (m: Self)
        ensures
            m.wf(),
            m.nodes_view() == Map::<Seq<char>, EdgeNode>::empty(),
            m.regions_view() == Map::<Seq<char>, Seq<String>>::empty(),
            m.nodes_view().dom().len() == 0,
            m.regions_view().dom().len() == 0,
            m.strategy_view() == strategy,
            m.config() == default_health_config(),
    {
        Self::with_health_config(strategy, HealthCheckConfig::default())
    }

    /// An empty registry with the given health thresholds.
    pub fn with_health_config(strategy: LoadBalancingStrategy, health_config: HealthCheckConfig) -> (m: Self)
        ensures
            m.wf(),
            m.nodes_view() == Map::<Seq<char>, EdgeNode>::empty(),
            m.regions_view() == Map::<Seq<char>, Seq<String>>::empty(),
            m.nodes_view().dom().len() == 0,
            m.regions_view().dom().len() == 0,
            m.strategy_view() == strategy,
            m.config() == health_config,
    {
        let m = EdgeNodeManager { nodes: node_table_new(), regions: region_table_new(), strategy, health_config };
        proof {
            assert(m.nodes_view().dom() =~= Set::empty());
            assert(m.regions_view().dom() =~= Set::empty());
            assert(m.nodes_view() =~= Map::<Seq<char>, EdgeNode>::empty());
            assert(m.regions_view() =~= Map::<Seq<char>, Seq<String>>::empty());
        }
        m
    }

    /// Adds (or replaces) a node and appends its id to its region's list.
    pub fn register_node(&mut self, node: EdgeNode)
        requires
            old(self).wf(),
        ensures
            final(self).wf(),
            final(self).nodes_view() == old(self).nodes_view().insert(node.node_id@, node),
            final(self).regions_view().dom() == old(self).regions_view().dom().insert(node.location@),
            final(self).regions_view()[node.location@] == region_ids(old(self).regions_view(), node.location@).push(node.node_id),
            forall|k: Seq<char>| k != node.location@ && #[trigger] old(self).regions_view().contains_key(k) ==>
                final(self).regions_view()[k] == old(self).regions_view()[k],
            final(self).strategy_view() == old(self).strategy_view(),
            final(self).config() == old(self).config(),
    {
        let node_id = node.node_id.clone();
        let location = node.location.clone();
        node_table_insert(&mut self.nodes, node_id.clone(), node);
        let mut ids = match region_table_get(&self.regions, location.as_str()) {
            Some(ids) => ids,
            None => Vec::new(),
        };
        ids.push(node_id);
        region_table_insert(&mut self.regions, location, ids);
        proof {
            assert(final(self).regions_view().dom() =~= old(self).regions_view().dom().insert(node.location@));
        }
    }

    /// Removes a node and its id from its region's list; false if it was not registered.
    pub fn unregister_node(&mut self, node_id: &str) -> (removed: bool)
        requires
            old(self).wf(),
        ensures
            final(self).wf(),
            removed == old(self).nodes_view().contains_key(node_id@),
            final(self).nodes_view() == old(self).nodes_view().remove(node_id@),
            removed && old(self).regions_view().contains_key(old(self).nodes_view()[node_id@].location@) ==> {
                let loc = old(self).nodes_view()[node_id@].location@;
                &&& final(self).regions_view().dom() == old(self).regions_view().dom()
                &&& final(self).regions_view()[loc] == without_id(old(self).regions_view()[loc], node_id@)
                &&& forall|k: Seq<char>| k != loc && #[trigger] old(self).regions_view().contains_key(k) ==>
                    final(self).regions_view()[k] == old(self).regions_view()[k]
            },
            !(removed && old(self).regions_view().contains_key(old(self).nodes_view()[node_id@].location@)) ==>
                final(self).regions_view() == old(self).regions_view(),
            final(self).strategy_view() == old(self).strategy_view(),
            final(self).config() == old(self).config(),
    {
        match node_table_remove(&mut self.nodes, node_id) {
            Some(node) => {
                match region_table_get(&self.regions, node.location.as_str()) {
                    Some(ids) => {
                        let kept = remove_id(&ids, node_id);
                        region_table_insert(&mut self.regions, node.location.clone(), kept);
                        proof {
                            assert(final(self).regions_view().dom() =~= old(self).regions_view().dom());
                        }
                    },
                    None => {},
                }
                true
            },
            None => false,
        }
    }

    /// Records a heartbeat reporting `load`, stamped with the current time.
    pub fn update_heartbeat(&mut self, node_id: &str, load: usize) -> (found: bool)
        requires
            old(self).wf(),
        ensures
            final(self).wf(),
            found == old(self).nodes_view().contains_key(node_id@),
            found ==> final(self).nodes_view().dom() == old(self).nodes_view().dom()
                && final(self).nodes_view()[node_id@].current_load == load,
            !found ==> final(self).nodes_view() == old(self).nodes_view(),
            final(self).regions_view() == old(self).regions_view(),
            final(self).strategy_view() == old(self).strategy_view(),
            final(self).config() == old(self).config(),
    {
        let now = now_nanos();
        self.update_heartbeat_at(node_id, load, now)
    }

    /// Records a heartbeat reporting `load`, received at time `now`.
    pub fn update_heartbeat_at(&mut self, node_id: &str, load: usize, now: u64) -> (found: bool)
        requires
            old(self).wf(),
        ensures
            final(self).wf(),
            found == old(self).nodes_view().contains_key(node_id@),
            found ==> final(self).nodes_view() == old(self).nodes_view().insert(
                node_id@,
                EdgeNode { current_load: load, last_heartbeat: now, ..old(self).nodes_view()[node_id@] },
            ),
            !found ==> final(self).nodes_view() == old(self).nodes_view(),
            final(self).regions_view() == old(self).regions_view(),
            final(self).strategy_view() == old(self).strategy_view(),
            final(self).config() == old(self).config(),
    {
        match node_table_get(&self.nodes, node_id) {
            Some(node) => {
                let mut node = node;
                node.update_load_at(load, now);
                let key = node.node_id.clone();
                node_table_insert(&mut self.nodes, key, node);
                proof {
                    assert(final(self).nodes_view() =~= old(self).nodes_view().insert(
                        node_id@,
                        EdgeNode { current_load: load, last_heartbeat: now, ..old(self).nodes_view()[node_id@] },
                    ));
                }
                true
            },
            None => false,
        }
    }
}

impl EdgeNodeManager {
    /// The healthy nodes among `entries`, in order.
    fn healthy_from(&self, entries: &Vec<(String, EdgeNode)>, now: u64) -> (h: Vec<EdgeNode>)
        ensures
            h@ == healthy_of(entries@, self.config(), now),
    {
        let mut h: Vec<EdgeNode> = Vec::new();
        let mut i: usize = 0;
        while i < entries.len()
            invariant
                i <= entries.len(),
                h@ == healthy_of(entries@.take(i as int), self.config(), now),
            decreases entries.len() - i,
        {
            proof {
                assert(entries@.take(i + 1).drop_last() =~= entries@.take(i as int));
            }
            if is_healthy(&self.health_config, &entries[i].1, now) {
                h.push(entries[i].1.clone());
            }
            i = i + 1;
        }
        proof {
            assert(entries@.take(i as int) =~= entries@);
        }
        h
    }

    /// The healthy nodes, read at the current time, in the table's iteration order.
    pub fn get_healthy_nodes(&self) -> (h: Vec<EdgeNode>)
        requires
            self.wf(),
        ensures
            exists|now: u64, s: Seq<(String, EdgeNode)>| #[trigger] is_entry_snapshot(self.nodes_view(), s)
                && h@ == #[trigger] healthy_of(s, self.config(), now),
            distinct_ids(h@),
    {
        let now = now_nanos();
        self.get_healthy_nodes_at(now)
    }

    /// The nodes healthy at time `now`, in the table's iteration order: each is a
    /// healthy registered node, and every healthy registered node is listed once.
    pub fn get_healthy_nodes_at(&self, now: u64) -> (h: Vec<EdgeNode>)
        requires
            self.wf(),
        ensures
            exists|s: Seq<(String, EdgeNode)>| #[trigger] is_entry_snapshot(self.nodes_view(), s)
                && h@ == healthy_of(s, self.config(), now),
            forall|i: int| 0 <= i < h@.len() ==> healthy_member(self.nodes_view(), self.config(), now, #[trigger] h@[i]),
            h@.len() == 0 <==> !some_healthy(self.nodes_view(), self.config(), now),
            distinct_ids(h@),
    {
        let entries = node_table_entries(&self.nodes);
        let h = self.healthy_from(&entries, now);
        proof {
            lemma_healthy_snapshot(self.nodes_view(), entries@, self.config(), now);
            lemma_healthy_ids_distinct(self, entries@, now);
        }
        h
    }

    /// Every registered node, in the table's iteration order.
    pub fn get_all_nodes(&self) -> (all: Vec<EdgeNode>)
        ensures
            exists|s: Seq<(String, EdgeNode)>| #[trigger] is_entry_snapshot(self.nodes_view(), s) && all@ == nodes_of(s),
    {
        let entries = node_table_entries(&self.nodes);
        let mut all: Vec<EdgeNode> = Vec::new();
        let mut i: usize = 0;
        while i < entries.len()
            invariant
                i <= entries.len(),
                is_entry_snapshot(self.nodes_view(), entries@),
                all@ == nodes_of(entries@.take(i as int)),
            decreases entries.len() - i,
        {
            all.push(entries[i].1.clone());
            i = i + 1;
            proof {
                assert(all@ =~= nodes_of(entries@.take(i as int)));
            }
        }
        proof {
            assert(entries@.take(i as int) =~= entries@);
            assert(all@ =~= nodes_of(entries@));
        }
        all
    }

    /// The node registered under `node_id`, if any.
    pub fn get_node(&self, node_id: &str) -> (n: Option<EdgeNode>)
        requires
            self.wf(),
        ensures
            n is Some <==> self.nodes_view().contains_key(node_id@),
            n matches Some(node) ==> node == self.nodes_view()[node_id@] && node.node_id@ == node_id@,
    {
        node_table_get(&self.nodes, node_id)
    }

    /// The node ids listed for a region (empty for an unknown region).
    pub fn get_nodes_in_region(&self, location: &str) -> (ids: Vec<String>)
        ensures
            ids@ == region_ids(self.regions_view(), location@),
    {
        match region_table_get(&self.regions, location) {
            Some(ids) => ids,
            None => Vec::new(),
        }
    }

    /// The first node of least load among the nodes healthy now.
    pub fn select_least_loaded(&self) -> (res: Option<NodeSelection>)
        requires
            self.wf(),
        ensures
            exists|now: u64| #[trigger] self.least_loaded_at(now, res),
    {
        let now = now_nanos();
        self.select_least_loaded_at(now)
    }

    /// Among the nodes healthy at `now` (in the table's iteration order), the first
    /// of least load, with up to three other healthy nodes as alternatives.
    pub fn select_least_loaded_at(&self, now: u64) -> (res: Option<NodeSelection>)
        requires
            self.wf(),
        ensures
            self.least_loaded_at(now, res),
    {
        let entries = node_table_entries(&self.nodes);
        let h = self.healthy_from(&entries, now);
        let res = pick_least_loaded(&h);
        proof {
            lemma_healthy_snapshot(self.nodes_view(), entries@, self.config(), now);
            if res is Some {
                let hs = healthy_of(entries@, self.config(), now);
                assert(least_loaded_choice(hs, res));
                lemma_snapshot_alternatives_ok(self, entries@, now, res->0);
            }
        }
        res
    }

    /// Weighted choice among the nodes healthy at `now`, for the draw `r`.
    fn select_weighted_at(&self, now: u64, r: u64) -> (res: Option<NodeSelection>)
        requires
            self.wf(),
        ensures
            self.weighted_at(now, r, res),
    {
        let entries = node_table_entries(&self.nodes);
        let h = self.healthy_from(&entries, now);
        let res = pick_weighted(&h, r);
        proof {
            lemma_total_spare_bounds(h@);
            lemma_healthy_snapshot(self.nodes_view(), entries@, self.config(), now);
        }
        res
    }

    /// Round-robin choice among the nodes healthy at `now`.
    fn select_round_robin_at(&self, now: u64) -> (res: Option<NodeSelection>)
        requires
            self.wf(),
        ensures
            self.round_robin_at(now, res),
    {
        let entries = node_table_entries(&self.nodes);
        let h = self.healthy_from(&entries, now);
        let res = pick_round_robin(&h, now);
        proof {
            lemma_healthy_snapshot(self.nodes_view(), entries@, self.config(), now);
        }
        res
    }

    /// Uniform choice among the nodes healthy at `now`, for the draw `r`.
    fn select_random_at(&self, now: u64, r: u64) -> (res: Option<NodeSelection>)
        requires
            self.wf(),
        ensures
            self.random_at(now, r, res),
    {
        let entries = node_table_entries(&self.nodes);
        let h = self.healthy_from(&entries, now);
        let res = pick_random(&h, r);
        proof {
            lemma_healthy_snapshot(self.nodes_view(), entries@, self.config(), now);
        }
        res
    }
}

impl EdgeNodeManager {
    /// Ids of up to `count` nodes healthy at `now`, other than `exclude_id`.
    fn get_alternative_nodes(&self, exclude_id: &str, count: usize, now: u64) -> (ids: Vec<String>)
        ensures
            exists|s: Seq<(String, EdgeNode)>| #[trigger] is_entry_snapshot(self.nodes_view(), s)
                && views(ids@) == first_n(ids_except(healthy_of(s, self.config(), now), exclude_id@), count as nat),
    {
        let entries = node_table_entries(&self.nodes);
        let h = self.healthy_from(&entries, now);
        let ids = other_ids(&h, exclude_id, count);
        assert(is_entry_snapshot(self.nodes_view(), entries@));
        ids
    }

    /// The first node listed in `ids` that is registered and healthy at `now`,
    /// offered with up to three other healthy nodes.
    fn first_healthy_in_region(&self, ids: &Vec<String>, now: u64) -> (res: Option<NodeSelection>)
        requires
            self.wf(),
        ensures
            listed_from(self.nodes_view(), ids@, self.config(), now, 0) < 0 <==> res is None,
            listed_from(self.nodes_view(), ids@, self.config(), now, 0) >= 0 ==> (res matches Some(sel) && {
                &&& sel.node == self.nodes_view()[ids@[listed_from(self.nodes_view(), ids@, self.config(), now, 0)]@]
                &&& sel.reason == SelectionReason::Geographic
                &&& healthy_member(self.nodes_view(), self.config(), now, sel.node)
                &&& exists|s: Seq<(String, EdgeNode)>| #[trigger] is_entry_snapshot(self.nodes_view(), s)
                    && views(sel.alternatives@) == alternatives_for(healthy_of(s, self.config(), now), sel.node.node_id@)
            }),
    {
        let mut i: usize = 0;
        while i < ids.len()
            invariant
                i <= ids.len(),
                self.wf(),
                listed_from(self.nodes_view(), ids@, self.config(), now, 0)
                    == listed_from(self.nodes_view(), ids@, self.config(), now, i as int),
            decreases ids.len() - i,
        {
            match node_table_get(&self.nodes, ids[i].as_str()) {
                Some(node) => {
                    if is_healthy(&self.health_config, &node, now) {
                        let alternatives = self.get_alternative_nodes(node.node_id.as_str(), 3, now);
                        return Some(NodeSelection { node, reason: SelectionReason::Geographic, alternatives });
                    }
                },
                None => {},
            }
            i = i + 1;
        }
        None
    }

    /// A region near the viewer: the first region (in the table's iteration order)
    /// whose name starts with the part of `viewer_location` before its first `-`;
    /// failing that, the first region that lists some node.
    fn find_closest_region(&self, viewer_location: &str) -> (res: Option<String>)
        requires
            self.wf(),
        ensures
            closest_region_ok(self.regions_view(), viewer_location@, res),
    {
        let n = viewer_location.unicode_len();
        let mut d: usize = 0;
        while d < n && viewer_location.get_char(d) != '-'
            invariant
                d <= n,
                n == viewer_location@.len(),
                dash_from(viewer_location@, 0) == dash_from(viewer_location@, d as int),
            decreases n - d,
        {
            d = d + 1;
        }
        let prefix = viewer_location.substring_char(0, d);
        let ghost p = region_prefix(viewer_location@);
        assert(prefix@ == p);
        let entries = region_table_entries(&self.regions);
        let ghost r = self.regions_view();
        let mut i: usize = 0;
        while i < entries.len()
            invariant
                i <= entries.len(),
                is_entry_snapshot(r, entry_views(entries@)),
                r == self.regions_view(),
                p == region_prefix(viewer_location@),
                prefix@ == p,
                forall|j: int| 0 <= j < i ==> !starts_with(#[trigger] entries@[j].0@, p),
            decreases entries.len() - i,
        {
            if str_starts_with(entries[i].0.as_str(), prefix) {
                let c = entries[i].0.clone();
                assert(entry_views(entries@)[i as int].0 == entries@[i as int].0);
                assert(r.contains_key(entries@[i as int].0@));
                assert(some_region_prefixed(r, p));
                return Some(c);
            }
            i = i + 1;
        }
        assert(!some_region_prefixed(r, p)) by {
            if some_region_prefixed(r, p) {
                let k = choose|k: Seq<char>| #[trigger] r.contains_key(k) && starts_with(k, p);
                let j = choose|j: int| 0 <= j < entry_views(entries@).len() && #[trigger] entry_views(entries@)[j].0@ == k;
                assert(entry_views(entries@)[j].0 == entries@[j].0);
                assert(!starts_with(entries@[j].0@, p));
            }
        }
        let mut i: usize = 0;
        while i < entries.len()
            invariant
                i <= entries.len(),
                is_entry_snapshot(r, entry_views(entries@)),
                r == self.regions_view(),
                p == region_prefix(viewer_location@),
                !some_region_prefixed(r, p),
                forall|j: int| 0 <= j < i ==> (#[trigger] entries@[j]).1@.len() == 0,
            decreases entries.len() - i,
        {
            if entries[i].1.len() > 0 {
                let c = entries[i].0.clone();
                assert(entry_views(entries@)[i as int] == (entries@[i as int].0, entries@[i as int].1@));
                assert(r.contains_key(entry_views(entries@)[i as int].0@));
                return Some(c);
            }
            i = i + 1;
        }
        assert forall|k: Seq<char>| #[trigger] r.contains_key(k) implies r[k].len() == 0 by {
            let j = choose|j: int| 0 <= j < entry_views(entries@).len() && #[trigger] entry_views(entries@)[j].0@ == k;
            assert(entry_views(entries@)[j] == (entries@[j].0, entries@[j].1@));
            assert(entries@[j].1@.len() == 0);
        }
        None
    }

    /// Geographic choice, reading the clock.
    pub fn select_by_geography(&self, viewer_location: &str) -> (res: Option<NodeSelection>)
        requires
            self.wf(),
        ensures
            exists|now: u64| #[trigger] self.geography_at(viewer_location@, now, res),
    {
        let now = now_nanos();
        self.select_by_geography_at(viewer_location, now)
    }

    /// Geographic choice at time `now`: the first healthy node listed for the viewer's
    /// own region; else the first healthy node listed for the closest region; else the
    /// least-loaded healthy node.
    pub fn select_by_geography_at(&self, viewer_location: &str, now: u64) -> (res: Option<NodeSelection>)
        requires
            self.wf(),
        ensures
            self.geography_at(viewer_location@, now, res),
    {
        let ghost m = self.nodes_view();
        let ghost r = self.regions_view();
        let home = self.get_nodes_in_region(viewer_location);
        let found = self.first_healthy_in_region(&home, now);
        if found.is_some() {
            proof {
                let k = listed_from(m, home@, self.config(), now, 0);
                lemma_listed_from(m, home@, self.config(), now, 0);
                assert(m.contains_key(home@[k]@));
                assert(some_healthy(m, self.config(), now));
                let sel = found->0;
                let s = choose|s: Seq<(String, EdgeNode)>| #[trigger] is_entry_snapshot(m, s)
                    && views(sel.alternatives@) == alternatives_for(healthy_of(s, self.config(), now), sel.node.node_id@);
                lemma_snapshot_alternatives_ok(self, s, now, sel);
            }
            return found;
        }
        let closest = self.find_closest_region(viewer_location);
        match closest {
            Some(region) => {
                let ids = self.get_nodes_in_region(region.as_str());
                let found = self.first_healthy_in_region(&ids, now);
                if found.is_some() {
                    proof {
                        let k = listed_from(m, ids@, self.config(), now, 0);
                        lemma_listed_from(m, ids@, self.config(), now, 0);
                        assert(m.contains_key(ids@[k]@));
                        assert(some_healthy(m, self.config(), now));
                        assert(closest_region_ok(r, viewer_location@, Some(region)));
                        let sel = found->0;
                        let s = choose|s: Seq<(String, EdgeNode)>| #[trigger] is_entry_snapshot(m, s)
                            && views(sel.alternatives@) == alternatives_for(healthy_of(s, self.config(), now), sel.node.node_id@);
                        lemma_snapshot_alternatives_ok(self, s, now, sel);
                    }
                    return found;
                }
            },
            None => {},
        }
        proof {
            assert(closest_region_ok(r, viewer_location@, closest));
        }
        self.select_least_loaded_at(now)
    }

    /// A node for a viewer under the configured strategy, reading the clock and,
    /// where the strategy draws at random, the random generator.
    pub fn select_node(&self, viewer_location: &str) -> (res: Option<NodeSelection>)
        requires
            self.wf(),
        ensures
            exists|now: u64, r: u64| #[trigger] self.node_choice_at(viewer_location@, now, r, res)
                && (res matches Some(sel) ==> alternatives_ok(self.nodes_view(), self.config(), now, sel)),
            self.strategy_view() == LoadBalancingStrategy::Random ==> (res matches Some(sel) ==> sel.alternatives@.len() == 0),
    {
        let now = now_nanos();
        let r = random_u64();
        self.select_node_at(viewer_location, now, r)
    }

    /// A node for a viewer at time `now` under the configured strategy; `r` is the
    /// random draw used by the weighted and random strategies.
    pub fn select_node_at(&self, viewer_location: &str, now: u64, r: u64) -> (res: Option<NodeSelection>)
        requires
            self.wf(),
        ensures
            selection_sound(self.nodes_view(), self.config(), now, res),
            self.node_choice_at(viewer_location@, now, r, res),
            res matches Some(sel) ==> alternatives_ok(self.nodes_view(), self.config(), now, sel),
            self.strategy_view() == LoadBalancingStrategy::Random ==> (res matches Some(sel) ==> sel.alternatives@.len() == 0),
    {
        let res = match self.strategy {
            LoadBalancingStrategy::LeastConnections => self.select_least_loaded_at(now),
            LoadBalancingStrategy::Geographic => self.select_by_geography_at(viewer_location, now),
            LoadBalancingStrategy::Weighted => self.select_weighted_at(now, r),
            LoadBalancingStrategy::RoundRobin => self.select_round_robin_at(now),
            LoadBalancingStrategy::Random => self.select_random_at(now, r),
        };
        proof {
            lemma_choice_alternatives(self, viewer_location@, now, r, res);
        }
        res
    }
}

/// A snapshot lists exactly as many entries as the table holds.
pub proof fn lemma_snapshot_len<V>(m: Map<Seq<char>, V>, s: Seq<(String, V)>)
    requires
        is_entry_snapshot(m, s),
    ensures
        s.len() == m.dom().len(),
        m.dom().finite(),
{
    let keys = s.map_values(|e: (String, V)| e.0@);
    assert(keys.no_duplicates()) by {
        assert forall|i: int, j: int| 0 <= i < keys.len() && 0 <= j < keys.len() && i != j implies keys[i] != keys[j] by {
            if i < j {
                assert(s[i].0@ != s[j].0@);
            } else {
                assert(s[j].0@ != s[i].0@);
            }
        }
    }
    assert(keys.to_set() =~= m.dom()) by {
        assert forall|k: Seq<char>| keys.to_set().contains(k) implies m.dom().contains(k) by {
            let i = choose|i: int| 0 <= i < keys.len() && keys[i] == k;
            assert(m.contains_key(s[i].0@));
        }
        assert forall|k: Seq<char>| m.dom().contains(k) implies keys.to_set().contains(k) by {
            assert(m.contains_key(k));
            let i = choose|i: int| 0 <= i < s.len() && #[trigger] s[i].0@ == k;
            assert(keys[i] == k);
        }
    }
    keys.unique_seq_to_set();
}

/// Every entry of a snapshot is reported either healthy or unhealthy, never both.
pub proof fn lemma_report_counts(s: Seq<(String, EdgeNode)>, cfg: HealthCheckConfig, now: u64)
    ensures
        healthy_ids(s, cfg, now).len() + unhealthy_list(s, cfg, now).len() == s.len(),
        healthy_ids(s, cfg, now).len() == healthy_of(s, cfg, now).len(),
    decreases s.len(),
{
    if s.len() > 0 {
        lemma_report_counts(s.drop_last(), cfg, now);
    }
}

/// Some entry of the snapshot is under key `k` and is (or is not) healthy.
pub open spec fn entry_with(s: Seq<(String, EdgeNode)>, cfg: HealthCheckConfig, now: u64, k: Seq<char>, healthy: bool) -> bool {
    exists|j: int| 0 <= j < s.len() && #[trigger] s[j].0@ == k && node_healthy(cfg, s[j].1, now) == healthy
}

/// Some line of an unhealthy list is about node `k`.
pub open spec fn lists_unhealthy(u: Seq<(Seq<char>, Seq<char>)>, k: Seq<char>) -> bool {
    exists|i: int| 0 <= i < u.len() && #[trigger] u[i].0 == k
}

/// Over entries under distinct keys, each node stored under its own id, the two
/// lists of a health report name each entry once: the healthy ones among the
/// healthy ids, the others among the unhealthy lines.
proof fn lemma_report_entries(s: Seq<(String, EdgeNode)>, cfg: HealthCheckConfig, now: u64)
    requires
        forall|i: int, j: int| 0 <= i < j < s.len() ==> #[trigger] s[i].0@ != #[trigger] s[j].0@,
        forall|i: int| 0 <= i < s.len() ==> (#[trigger] s[i]).1.node_id@ == s[i].0@,
    ensures
        forall|k: Seq<char>| #[trigger] healthy_ids(s, cfg, now).contains(k) <==> entry_with(s, cfg, now, k, true),
        forall|k: Seq<char>| #[trigger] lists_unhealthy(unhealthy_list(s, cfg, now), k) <==> entry_with(s, cfg, now, k, false),
        forall|i: int, j: int| 0 <= i < j < healthy_ids(s, cfg, now).len() ==>
            #[trigger] healthy_ids(s, cfg, now)[i] != #[trigger] healthy_ids(s, cfg, now)[j],
        forall|i: int, j: int| 0 <= i < j < unhealthy_list(s, cfg, now).len() ==>
            #[trigger] unhealthy_list(s, cfg, now)[i].0 != #[trigger] unhealthy_list(s, cfg, now)[j].0,
    decreases s.len(),
{
    if s.len() > 0 {
        let t = s.drop_last();
        assert forall|i: int, j: int| 0 <= i < j < t.len() implies #[trigger] t[i].0@ != #[trigger] t[j].0@ by {
            assert(t[i] == s[i] && t[j] == s[j]);
        }
        assert forall|i: int| 0 <= i < t.len() implies (#[trigger] t[i]).1.node_id@ == t[i].0@ by {
            assert(t[i] == s[i]);
        }
        lemma_report_entries(t, cfg, now);
        let last = s.len() - 1;
        let e = s[last];
        let lk = e.0@;
        let good = node_healthy(cfg, e.1, now);
        assert(e.1.node_id@ == lk);
        let h = healthy_ids(s, cfg, now);
        let ht = healthy_ids(t, cfg, now);
        let u = unhealthy_list(s, cfg, now);
        let ut = unhealthy_list(t, cfg, now);
        // No entry of `t` is under the last key.
        assert(!entry_with(t, cfg, now, lk, true) && !entry_with(t, cfg, now, lk, false)) by {
            if entry_with(t, cfg, now, lk, true) {
                let j = choose|j: int| 0 <= j < t.len() && #[trigger] t[j].0@ == lk && node_healthy(cfg, t[j].1, now) == true;
                assert(t[j] == s[j]);
            }
            if entry_with(t, cfg, now, lk, false) {
                let j = choose|j: int| 0 <= j < t.len() && #[trigger] t[j].0@ == lk && node_healthy(cfg, t[j].1, now) == false;
                assert(t[j] == s[j]);
            }
        }
        assert forall|k: Seq<char>, b: bool| entry_with(s, cfg, now, k, b) <==>
            (entry_with(t, cfg, now, k, b) || (k == lk && good == b)) by {
            if entry_with(s, cfg, now, k, b) {
                let j = choose|j: int| 0 <= j < s.len() && #[trigger] s[j].0@ == k && node_healthy(cfg, s[j].1, now) == b;
                if j < t.len() {
                    assert(t[j] == s[j]);
                }
            }
            if entry_with(t, cfg, now, k, b) {
                let j = choose|j: int| 0 <= j < t.len() && #[trigger] t[j].0@ == k && node_healthy(cfg, t[j].1, now) == b;
                assert(t[j] == s[j]);
            }
            if k == lk && good == b {
                assert(s[last].0@ == k);
            }
        }
        if good {
            assert(h == ht.push(lk));
            assert(u == ut);
            assert forall|k: Seq<char>| #[trigger] h.contains(k) <==> entry_with(s, cfg, now, k, true) by {
                if h.contains(k) {
                    let i = choose|i: int| 0 <= i < h.len() && h[i] == k;
                    if i < ht.len() {
                        assert(ht[i] == h[i]);
                        assert(ht.contains(k));
                    }
                }
                if entry_with(t, cfg, now, k, true) {
                    assert(ht.contains(k));
                    let i = choose|i: int| 0 <= i < ht.len() && ht[i] == k;
                    assert(h[i] == ht[i]);
                }
                if k == lk {
                    assert(h[h.len() - 1] == k);
                }
            }
            assert forall|i: int, j: int| 0 <= i < j < h.len() implies #[trigger] h[i] != #[trigger] h[j] by {
                if j < ht.len() {
                    assert(h[i] == ht[i] && h[j] == ht[j]);
                } else {
                    assert(h[i] == ht[i]);
                    assert(ht.contains(ht[i]));
                }
            }
        } else {
            assert(h == ht);
            assert(u == ut.push((lk, unhealthy_reason(cfg, e.1, now))));
            assert forall|k: Seq<char>| #[trigger] lists_unhealthy(u, k) <==> entry_with(s, cfg, now, k, false) by {
                if lists_unhealthy(u, k) {
                    let i = choose|i: int| 0 <= i < u.len() && #[trigger] u[i].0 == k;
                    if i < ut.len() {
                        assert(ut[i] == u[i]);
                        assert(lists_unhealthy(ut, k));
                    }
                }
                if entry_with(t, cfg, now, k, false) {
                    assert(lists_unhealthy(ut, k));
                    let i = choose|i: int| 0 <= i < ut.len() && #[trigger] ut[i].0 == k;
                    assert(u[i] == ut[i]);
                }
                if k == lk {
                    assert(u[u.len() - 1].0 == k);
                }
            }
            assert forall|i: int, j: int| 0 <= i < j < u.len() implies #[trigger] u[i].0 != #[trigger] u[j].0 by {
                if j < ut.len() {
                    assert(u[i] == ut[i] && u[j] == ut[j]);
                } else {
                    assert(u[i] == ut[i]);
                    assert(lists_unhealthy(ut, ut[i].0));
                }
            }
        }
    }
}

/// A health report over a snapshot of the registry lists every registered node
/// exactly once: a healthy node among the healthy ids, any other among the
/// unhealthy lines; no id is listed twice, and nothing else is listed.
pub proof fn lemma_report_partition(mgr: &EdgeNodeManager, s: Seq<(String, EdgeNode)>, now: u64)
    requires
        mgr.wf(),
        is_entry_snapshot(mgr.nodes_view(), s),
    ensures
        forall|k: Seq<char>| #[trigger] healthy_ids(s, mgr.config(), now).contains(k) <==>
            mgr.nodes_view().contains_key(k) && node_healthy(mgr.config(), mgr.nodes_view()[k], now),
        forall|k: Seq<char>| #[trigger] lists_unhealthy(unhealthy_list(s, mgr.config(), now), k) <==>
            mgr.nodes_view().contains_key(k) && !node_healthy(mgr.config(), mgr.nodes_view()[k], now),
        forall|i: int, j: int| 0 <= i < j < healthy_ids(s, mgr.config(), now).len() ==>
            #[trigger] healthy_ids(s, mgr.config(), now)[i] != #[trigger] healthy_ids(s, mgr.config(), now)[j],
        forall|i: int, j: int| 0 <= i < j < unhealthy_list(s, mgr.config(), now).len() ==>
            #[trigger] unhealthy_list(s, mgr.config(), now)[i].0 != #[trigger] unhealthy_list(s, mgr.config(), now)[j].0,
{
    let m = mgr.nodes_view();
    let cfg = mgr.config();
    assert forall|i: int| 0 <= i < s.len() implies (#[trigger] s[i]).1.node_id@ == s[i].0@ by {
        assert(m.contains_key(s[i].0@));
    }
    lemma_report_entries(s, cfg, now);
    assert forall|k: Seq<char>, b: bool| #[trigger] entry_with(s, cfg, now, k, b) <==>
        m.contains_key(k) && node_healthy(cfg, m[k], now) == b by {
        if entry_with(s, cfg, now, k, b) {
            let j = choose|j: int| 0 <= j < s.len() && #[trigger] s[j].0@ == k && node_healthy(cfg, s[j].1, now) == b;
            assert(m.contains_key(s[j].0@));
        }
        if m.contains_key(k) {
            let j = choose|j: int| 0 <= j < s.len() && #[trigger] s[j].0@ == k;
            assert(m[s[j].0@] == s[j].1);
            if node_healthy(cfg, m[k], now) == b {
                assert(entry_with(s, cfg, now, k, b));
            }
        }
    }
}

impl EdgeNodeManager {
    /// Statistics of one node, reading the clock.
    pub fn get_node_stats(&self, node_id: &str) -> (st: Option<EdgeNodeStats>)
        ensures
            st is Some <==> self.nodes_view().contains_key(node_id@),
    {
        let now = now_nanos();
        self.get_node_stats_at(node_id, now)
    }

    /// Statistics of one node at time `now`; the uptime is the whole seconds since
    /// its last heartbeat (0 if the heartbeat lies in the future).
    pub fn get_node_stats_at(&self, node_id: &str, now: u64) -> (st: Option<EdgeNodeStats>)
        ensures
            st is Some <==> self.nodes_view().contains_key(node_id@),
            st matches Some(st) ==> {
                let n = self.nodes_view()[node_id@];
                &&& st.node_id == n.node_id
                &&& st.location == n.location
                &&& st.total_requests == 0
                &&& st.active_connections == n.current_load
                &&& st.uptime_seconds == (if now >= n.last_heartbeat { (now - n.last_heartbeat) / 1_000_000_000 } else { 0 })
                &&& st.last_heartbeat == n.last_heartbeat
            },
    {
        match node_table_get(&self.nodes, node_id) {
            Some(node) => {
                let uptime = if now >= node.last_heartbeat { (now - node.last_heartbeat) / 1_000_000_000 } else { 0 };
                Some(EdgeNodeStats {
                    node_id: node.node_id,
                    location: node.location,
                    total_requests: 0,
                    active_connections: node.current_load,
                    uptime_seconds: uptime,
                    last_heartbeat: node.last_heartbeat,
                })
            },
            None => None,
        }
    }

    /// Cluster totals, reading the clock.
    pub fn get_cluster_stats(&self) -> (cs: ClusterStats)
        requires
            self.wf(),
        ensures
            cs.total_nodes == self.nodes_view().dom().len(),
            cs.healthy_nodes <= cs.total_nodes,
            cs.regions == self.regions_view().dom().len(),
    {
        let now = now_nanos();
        self.get_cluster_stats_at(now)
    }

    /// Cluster totals at time `now`. Capacity sums saturate at `usize::MAX`.
    pub fn get_cluster_stats_at(&self, now: u64) -> (cs: ClusterStats)
        requires
            self.wf(),
        ensures
            cs.total_nodes == self.nodes_view().dom().len(),
            cs.healthy_nodes <= cs.total_nodes,
            cs.regions == self.regions_view().dom().len(),
            cs.available_capacity == (if cs.total_capacity >= cs.used_capacity { cs.total_capacity - cs.used_capacity } else { 0 }),
            exists|s: Seq<(String, EdgeNode)>| #[trigger] is_entry_snapshot(self.nodes_view(), s) && {
                &&& cs.healthy_nodes == healthy_of(s, self.config(), now).len()
                &&& cs.total_capacity == capped(sum_capacity(s))
                &&& cs.used_capacity == capped(sum_load(s))
            },
    {
        let entries = node_table_entries(&self.nodes);
        let h = self.healthy_from(&entries, now);
        let mut total: usize = 0;
        let mut used: usize = 0;
        let mut i: usize = 0;
        while i < entries.len()
            invariant
                i <= entries.len(),
                total == capped(sum_capacity(entries@.take(i as int))),
                used == capped(sum_load(entries@.take(i as int))),
            decreases entries.len() - i,
        {
            proof {
                assert(entries@.take(i + 1).drop_last() =~= entries@.take(i as int));
                lemma_sums_nonneg(entries@.take(i as int));
            }
            total = total.saturating_add(entries[i].1.capacity);
            used = used.saturating_add(entries[i].1.current_load);
            i = i + 1;
        }
        proof {
            assert(entries@.take(i as int) =~= entries@);
            lemma_snapshot_len(self.nodes_view(), entries@);
            lemma_healthy_of(entries@, self.config(), now);
        }
        ClusterStats {
            total_nodes: entries.len(),
            healthy_nodes: h.len(),
            total_capacity: total,
            used_capacity: used,
            available_capacity: total.saturating_sub(used),
            regions: region_table_len(&self.regions),
        }
    }

    /// Health check of every node, reading the clock.
    pub fn run_health_check(&self) -> (report: HealthCheckReport)
        requires
            self.wf(),
        ensures
            report.healthy_nodes@.len() + report.unhealthy_nodes@.len() == self.nodes_view().dom().len(),
            exists|now: u64| #[trigger] self.health_check_at(now, report),
    {
        let now = now_nanos();
        self.run_health_check_at(now)
    }

    /// Health check at time `now`, in the table's iteration order: the ids of the
    /// healthy nodes, and each unhealthy node's id with the first failing check
    /// ("Heartbeat timeout", "Overloaded" or "Unavailable").
    pub fn run_health_check_at(&self, now: u64) -> (report: HealthCheckReport)
        requires
            self.wf(),
        ensures
            self.health_check_at(now, report),
    {
        let entries = node_table_entries(&self.nodes);
        let mut healthy: Vec<String> = Vec::new();
        let mut unhealthy: Vec<(String, String)> = Vec::new();
        let mut i: usize = 0;
        while i < entries.len()
            invariant
                i <= entries.len(),
                views(healthy@) == healthy_ids(entries@.take(i as int), self.config(), now),
                pair_views(unhealthy@) == unhealthy_list(entries@.take(i as int), self.config(), now),
            decreases entries.len() - i,
        {
            proof {
                assert(entries@.take(i + 1).drop_last() =~= entries@.take(i as int));
            }
            let node = &entries[i].1;
            if is_healthy(&self.health_config, node, now) {
                healthy.push(node.node_id.clone());
                proof {
                    assert(views(healthy@) =~= views(healthy@.drop_last()).push(node.node_id@));
                }
            } else {
                let reason = if now < node.last_heartbeat || now - node.last_heartbeat > self.health_config.heartbeat_timeout {
                    String::from_str("Heartbeat timeout")
                } else if node.capacity == 0 {
                    if 100_000 > self.health_config.max_load_thousandths {
                        String::from_str("Overloaded")
                    } else {
                        String::from_str("Unavailable")
                    }
                } else {
                    proof {
                        assert(self.health_config.max_load_thousandths as u128 * node.capacity as u128 <= u64::MAX * u64::MAX) by (nonlinear_arith)
                            requires self.health_config.max_load_thousandths <= u64::MAX, node.capacity <= u64::MAX;
                    }
                    if (node.current_load as u128) * 100_000 > (self.health_config.max_load_thousandths as u128) * (node.capacity as u128) {
                        String::from_str("Overloaded")
                    } else {
                        String::from_str("Unavailable")
                    }
                };
                unhealthy.push((node.node_id.clone(), reason));
                proof {
                    assert(pair_views(unhealthy@) =~= pair_views(unhealthy@.drop_last()).push((node.node_id@, unhealthy_reason(self.config(), *node, now))));
                }
            }
            i = i + 1;
        }
        proof {
            assert(entries@.take(i as int) =~= entries@);
            lemma_snapshot_len(self.nodes_view(), entries@);
            lemma_report_counts(entries@, self.config(), now);
            assert(healthy@.len() == views(healthy@).len());
            assert(unhealthy@.len() == pair_views(unhealthy@).len());
        }
        HealthCheckReport { healthy_nodes: healthy, unhealthy_nodes: unhealthy }
    }

    /// Switches the load balancing strategy.
    pub fn set_strategy(&mut self, strategy: LoadBalancingStrategy)
        ensures
            final(self).strategy_view() == strategy,
            final(self).nodes_view() == old(self).nodes_view(),
            final(self).regions_view() == old(self).regions_view(),
            final(self).config() == old(self).config(),
            final(self).wf() == old(self).wf(),
    {
        self.strategy = strategy;
    }

    /// The current load balancing strategy.
    pub fn get_strategy(&self) -> (s: LoadBalancingStrategy)
        ensures
            s == self.strategy_view(),
    {
        self.strategy
    }
}

/// Sums of capacities and loads are never negative.
pub proof fn lemma_sums_nonneg(s: Seq<(String, EdgeNode)>)
    ensures
        sum_capacity(s) >= 0,
        sum_load(s) >= 0,
    decreases s.len(),
{
    if s.len() > 0 {
        lemma_sums_nonneg(s.drop_last());
    }
}

/// `ids` without any occurrence of `id`, order kept.
pub fn remove_id(ids: &Vec<String>, id: &str) -> (kept: Vec<String>)
    ensures
        kept@ == without_id(ids@, id@),
{
    let mut kept: Vec<String> = Vec::new();
    let mut i: usize = 0;
    while i < ids.len()
        invariant
            i <= ids.len(),
            kept@ == without_id(ids@.take(i as int), id@),
        decreases ids.len() - i,
    {
        proof {
            assert(ids@.take(i + 1).drop_last() =~= ids@.take(i as int));
        }
        if !str_eq(ids[i].as_str(), id) {
            kept.push(ids[i].clone());
        }
        i = i + 1;
    }
    proof {
        assert(ids@.take(i as int) =~= ids@);
    }
    kept
}


/// What every strategy promises of the alternatives beside a chosen node: at most
/// three, all distinct, none the chosen node, each the id of a healthy registered
/// node.
pub open spec fn alternatives_ok(m: Map<Seq<char>, EdgeNode>, cfg: HealthCheckConfig, now: u64, sel: NodeSelection) -> bool {
    &&& sel.alternatives@.len() <= 3
    &&& forall|i: int| 0 <= i < sel.alternatives@.len() ==> {
        &&& (#[trigger] sel.alternatives@[i])@ != sel.node.node_id@
        &&& m.contains_key(sel.alternatives@[i]@)
        &&& node_healthy(cfg, m[sel.alternatives@[i]@], now)
    }
    &&& forall|i: int, j: int| 0 <= i < j < sel.alternatives@.len() ==>
        (#[trigger] sel.alternatives@[i])@ != (#[trigger] sel.alternatives@[j])@
}

/// Alternatives drawn from the healthy nodes of a snapshot of the registry beside
/// the chosen node meet `alternatives_ok`.
pub proof fn lemma_snapshot_alternatives_ok(mgr: &EdgeNodeManager, s: Seq<(String, EdgeNode)>, now: u64, sel: NodeSelection)
    requires
        mgr.wf(),
        is_entry_snapshot(mgr.nodes_view(), s),
        views(sel.alternatives@) == alternatives_for(healthy_of(s, mgr.config(), now), sel.node.node_id@),
    ensures
        alternatives_ok(mgr.nodes_view(), mgr.config(), now, sel),
{
    let m = mgr.nodes_view();
    let cfg = mgr.config();
    let h = healthy_of(s, cfg, now);
    let id = sel.node.node_id@;
    let a = views(sel.alternatives@);
    lemma_healthy_snapshot(m, s, cfg, now);
    lemma_healthy_ids_distinct(mgr, s, now);
    lemma_alternatives_for(h, id);
    lemma_alternatives_distinct(h, id);
    assert(a.len() == sel.alternatives@.len());
    assert forall|i: int| 0 <= i < sel.alternatives@.len() implies {
        &&& (#[trigger] sel.alternatives@[i])@ != id
        &&& m.contains_key(sel.alternatives@[i]@)
        &&& node_healthy(cfg, m[sel.alternatives@[i]@], now)
    } by {
        assert(a[i] == sel.alternatives@[i]@);
        let j = choose|j: int| 0 <= j < h.len() && h[j].node_id@ == alternatives_for(h, id)[i];
        assert(healthy_member(m, cfg, now, h[j]));
    }
    assert forall|i: int, j: int| 0 <= i < j < sel.alternatives@.len() implies
        (#[trigger] sel.alternatives@[i])@ != (#[trigger] sel.alternatives@[j])@ by {
        assert(a[i] == sel.alternatives@[i]@ && a[j] == sel.alternatives@[j]@);
    }
}

/// Whatever the strategy, a choice offers alternatives that meet
/// `alternatives_ok`; the uniform choice offers none.
pub proof fn lemma_choice_alternatives(mgr: &EdgeNodeManager, loc: Seq<char>, now: u64, r: u64, res: Option<NodeSelection>)
    requires
        mgr.wf(),
        mgr.node_choice_at(loc, now, r, res),
    ensures
        res matches Some(sel) ==> alternatives_ok(mgr.nodes_view(), mgr.config(), now, sel),
        mgr.strategy_view() == LoadBalancingStrategy::Random ==> (res matches Some(sel) ==> sel.alternatives@.len() == 0),
{
    let m = mgr.nodes_view();
    let cfg = mgr.config();
    if res is Some {
        let sel = res->0;
        match mgr.strategy_view() {
            LoadBalancingStrategy::LeastConnections => {},
            LoadBalancingStrategy::Geographic => {},
            LoadBalancingStrategy::Weighted => {
                let s = choose|s: Seq<(String, EdgeNode)>| #[trigger] is_entry_snapshot(m, s)
                    && weighted_choice(healthy_of(s, cfg, now), r, res);
                let h = healthy_of(s, cfg, now);
                assert(h.len() > 0);
                if total_spare(h) == 0 {
                    assert(least_loaded_choice(h, res));
                    assert(h[least_loaded_index(h)] == sel.node);
                } else {
                    lemma_total_spare_bounds(h);
                    let i = weighted_from(h, r as int % total_spare(h), 0);
                    assert(chooses(h, sel, i, SelectionReason::Weighted));
                }
                lemma_snapshot_alternatives_ok(mgr, s, now, sel);
            },
            LoadBalancingStrategy::RoundRobin => {
                let s = choose|s: Seq<(String, EdgeNode)>| #[trigger] is_entry_snapshot(m, s)
                    && round_robin_choice(healthy_of(s, cfg, now), now, res);
                lemma_snapshot_alternatives_ok(mgr, s, now, sel);
            },
            LoadBalancingStrategy::Random => {},
        }
    }
}

/// A least-loaded pick over one snapshot agrees with a healthy list taken at the
/// same instant over any snapshot: nothing is picked exactly when the list is
/// empty, and the picked node is in the list and no node of the list is less
/// loaded.
pub proof fn lemma_least_loaded_against_healthy(
    mgr: &EdgeNodeManager,
    s1: Seq<(String, EdgeNode)>,
    s2: Seq<(String, EdgeNode)>,
    now: u64,
    res: Option<NodeSelection>,
)
    requires
        mgr.wf(),
        is_entry_snapshot(mgr.nodes_view(), s1),
        is_entry_snapshot(mgr.nodes_view(), s2),
        least_loaded_choice(healthy_of(s1, mgr.config(), now), res),
    ensures
        res is None <==> healthy_of(s2, mgr.config(), now).len() == 0,
        res matches Some(sel) ==> {
            &&& exists|i: int| 0 <= i < healthy_of(s2, mgr.config(), now).len()
                && #[trigger] healthy_of(s2, mgr.config(), now)[i] == sel.node
            &&& forall|j: int| 0 <= j < healthy_of(s2, mgr.config(), now).len()
                ==> !less_loaded(#[trigger] healthy_of(s2, mgr.config(), now)[j], sel.node)
        },
{
    let m = mgr.nodes_view();
    let cfg = mgr.config();
    let h1 = healthy_of(s1, cfg, now);
    let h2 = healthy_of(s2, cfg, now);
    lemma_healthy_snapshot(m, s1, cfg, now);
    lemma_healthy_snapshot(m, s2, cfg, now);
    lemma_healthy_of(s1, cfg, now);
    lemma_healthy_of(s2, cfg, now);
    if res is Some {
        let sel = res->0;
        lemma_least_loaded_minimal(h1);
        let k = least_loaded_index(h1);
        assert(h1[k] == sel.node);
        assert(healthy_member(m, cfg, now, h1[k]));
        let j2 = choose|j: int| 0 <= j < s2.len() && #[trigger] s2[j].0@ == sel.node.node_id@;
        assert(s2[j2].1 == sel.node);
        assert(node_healthy(cfg, s2[j2].1, now));
        let i2 = choose|i: int| 0 <= i < h2.len() && h2[i] == s2[j2].1;
        assert(h2[i2] == sel.node);
        assert forall|j: int| 0 <= j < h2.len() implies !less_loaded(#[trigger] h2[j], sel.node) by {
            assert(healthy_member(m, cfg, now, h2[j]));
            let q = choose|q: int| 0 <= q < s1.len() && #[trigger] s1[q].0@ == h2[j].node_id@;
            assert(s1[q].1 == h2[j]);
            assert(node_healthy(cfg, s1[q].1, now));
            let p = choose|p: int| 0 <= p < h1.len() && h1[p] == s1[q].1;
            assert(!less_loaded(h1[p], h1[k]));
        }
    }
}

/// Every registered node is stored under its own id.
pub proof fn lemma_stored_under_own_id(mgr: &EdgeNodeManager)
    requires
        mgr.wf(),
    ensures
        forall|k: Seq<char>| #[trigger] mgr.nodes_view().contains_key(k) ==> mgr.nodes_view()[k].node_id@ == k,
{
}

/// The ids of a snapshot's healthy nodes, in order, are the ids its health
/// report lists as healthy.
pub proof fn lemma_healthy_ids_of(s: Seq<(String, EdgeNode)>, cfg: HealthCheckConfig, now: u64)
    ensures
        healthy_ids(s, cfg, now) == healthy_of(s, cfg, now).map_values(|n: EdgeNode| n.node_id@),
    decreases s.len(),
{
    if s.len() > 0 {
        lemma_healthy_ids_of(s.drop_last(), cfg, now);
        let ht = healthy_of(s.drop_last(), cfg, now);
        if node_healthy(cfg, s.last().1, now) {
            assert(ht.push(s.last().1).map_values(|n: EdgeNode| n.node_id@)
                =~= ht.map_values(|n: EdgeNode| n.node_id@).push(s.last().1.node_id@));
        }
    }
}

/// A health report and a healthy list of the registry taken at the same instant,
/// over any two snapshots, agree: an id is reported healthy exactly when a node
/// of that id is in the healthy list.
pub proof fn lemma_report_matches_healthy(
    mgr: &EdgeNodeManager,
    s1: Seq<(String, EdgeNode)>,
    s2: Seq<(String, EdgeNode)>,
    now: u64,
)
    requires
        mgr.wf(),
        is_entry_snapshot(mgr.nodes_view(), s1),
        is_entry_snapshot(mgr.nodes_view(), s2),
    ensures
        forall|k: Seq<char>| #[trigger] healthy_ids(s1, mgr.config(), now).contains(k) <==>
            exists|i: int| 0 <= i < healthy_of(s2, mgr.config(), now).len()
                && #[trigger] healthy_of(s2, mgr.config(), now)[i].node_id@ == k,
{
    let m = mgr.nodes_view();
    let cfg = mgr.config();
    let h = healthy_of(s2, cfg, now);
    lemma_report_partition(mgr, s1, now);
    lemma_healthy_snapshot(m, s2, cfg, now);
    lemma_healthy_of(s2, cfg, now);
    assert forall|k: Seq<char>| #[trigger] healthy_ids(s1, cfg, now).contains(k) <==>
        exists|i: int| 0 <= i < h.len() && #[trigger] h[i].node_id@ == k by {
        if exists|i: int| 0 <= i < h.len() && #[trigger] h[i].node_id@ == k {
            let i = choose|i: int| 0 <= i < h.len() && #[trigger] h[i].node_id@ == k;
            assert(healthy_member(m, cfg, now, h[i]));
        }
        if m.contains_key(k) && node_healthy(cfg, m[k], now) {
            let j = choose|j: int| 0 <= j < s2.len() && #[trigger] s2[j].0@ == k;
            assert(s2[j].1 == m[k]);
            assert(node_healthy(cfg, s2[j].1, now));
            let i = choose|i: int| 0 <= i < h.len() && h[i] == s2[j].1;
            assert(h[i].node_id@ == k);
        }
    }
}

/// Only the geographic strategy looks at where the viewer is: under any other
/// strategy, two viewer locations admit the same choices.
pub proof fn lemma_location_only_geographic(mgr: &EdgeNodeManager, a: Seq<char>, b: Seq<char>, now: u64, r: u64, res: Option<NodeSelection>)
    requires
        mgr.strategy_view() != LoadBalancingStrategy::Geographic,
    ensures
        mgr.node_choice_at(a, now, r, res) <==> mgr.node_choice_at(b, now, r, res),
{
}

/// A node just registered is what a lookup of its id returns.
pub proof fn lemma_register_then_get(before: &EdgeNodeManager, after: &EdgeNodeManager, node: EdgeNode)
    requires
        after.nodes_view() == before.nodes_view().insert(node.node_id@, node),
    ensures
        after.nodes_view().contains_key(node.node_id@),
        after.nodes_view()[node.node_id@] == node,
{
}

/// Once a node is unregistered, its id is unknown: a lookup finds nothing and a
/// second unregistration reports that nothing was removed; other nodes stay.
pub proof fn lemma_unregister_forgets(before: &EdgeNodeManager, after: &EdgeNodeManager, node_id: Seq<char>)
    requires
        after.nodes_view() == before.nodes_view().remove(node_id),
    ensures
        !after.nodes_view().contains_key(node_id),
        forall|k: Seq<char>| k != node_id && #[trigger] before.nodes_view().contains_key(k) ==>
            after.nodes_view().contains_key(k) && after.nodes_view()[k] == before.nodes_view()[k],
{
}

/// Unregistering a node just registered under a new id gives back the node table
/// as it was.
pub proof fn lemma_unregister_undoes_register(
    before: &EdgeNodeManager,
    registered: &EdgeNodeManager,
    after: &EdgeNodeManager,
    node: EdgeNode,
)
    requires
        !before.nodes_view().contains_key(node.node_id@),
        registered.nodes_view() == before.nodes_view().insert(node.node_id@, node),
        after.nodes_view() == registered.nodes_view().remove(node.node_id@),
    ensures
        after.nodes_view() == before.nodes_view(),
{
    assert(after.nodes_view() =~= before.nodes_view());
}

} // verus!
