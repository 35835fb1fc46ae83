//! Health and load-balancing decisions over a list of edge nodes.

use vstd::prelude::*;
use crate::domain::edge_node::EdgeNode;

verus! {

/// Health-check thresholds. `heartbeat_timeout` is in nanoseconds;
/// `max_load_thousandths` is a load limit in thousandths of a percent of a node's
/// capacity (90% is 90_000, 92.5% is 92_500).
#[derive(Debug, Clone, Copy)]
pub struct HealthCheckConfig {
    /// Maximum time since the last heartbeat before a node is unhealthy.
    pub heartbeat_timeout: u64,
    /// Maximum load, in thousandths of a percent, before a node is overloaded.
    pub max_load_thousandths: u64,
    /// Enable automatic failover.
    pub auto_failover: bool,
}

/// 30 s heartbeat timeout, 90% load limit, failover on.
pub open spec fn default_health_config() -> HealthCheckConfig {
    HealthCheckConfig { heartbeat_timeout: 30_000_000_000, max_load_thousandths: 90_000, auto_failover: true }
}

impl Default for HealthCheckConfig {
    fn default() -> (c: Self)
        ensures
            c == default_health_config(),
    {
        HealthCheckConfig { heartbeat_timeout: 30_000_000_000, max_load_thousandths: 90_000, auto_failover: true }
    }
}

/// Why a node was chosen.
#[derive(Debug, Clone, Copy, PartialEq, Eq, Structural)]
pub enum SelectionReason {
    LeastLoaded,
    Geographic,
    Weighted,
    RoundRobin,
    OnlyAvailable,
}

/// A chosen node, why it was chosen, and up to three other node ids to fall back on.
#[derive(Debug)]
pub struct NodeSelection {
    pub node: EdgeNode,
    pub reason: SelectionReason,
    pub alternatives: Vec<String>,
}

/// The heartbeat is older than the timeout, or lies in the future.
pub open spec fn heartbeat_expired(cfg: HealthCheckConfig, node: EdgeNode, now: u64) -> bool {
    now < node.last_heartbeat || now - node.last_heartbeat > cfg.heartbeat_timeout
}

/// The load percentage (100% for a node without capacity) exceeds the limit.
pub open spec fn overloaded(cfg: HealthCheckConfig, node: EdgeNode) -> bool {
    if node.capacity == 0 {
        100_000 > cfg.max_load_thousandths
    } else {
        node.current_load * 100_000 > cfg.max_load_thousandths * node.capacity
    }
}

/// A node is healthy at time `now`: recent heartbeat, not overloaded, and room left.
pub open spec fn node_healthy(cfg: HealthCheckConfig, node: EdgeNode, now: u64) -> bool {
    &&& !heartbeat_expired(cfg, node, now)
    &&& !overloaded(cfg, node)
    &&& node.current_load < node.capacity
}

/// Load as a fraction `load_num / load_den` (a node without capacity counts as full).
pub open spec fn load_num(n: EdgeNode) -> int {
    if n.capacity == 0 { 1 } else { n.current_load as int }
}

pub open spec fn load_den(n: EdgeNode) -> int {
    if n.capacity == 0 { 1 } else { n.capacity as int }
}

/// `a` carries a strictly smaller fraction of its capacity than `b`.
pub open spec fn less_loaded(a: EdgeNode, b: EdgeNode) -> bool {
    load_num(a) * load_den(b) < load_num(b) * load_den(a)
}

/// Index of the first node of least load (0 for an empty list).
pub open spec fn least_loaded_index(h: Seq<EdgeNode>) -> int
    decreases h.len(),
{
    if h.len() <= 1 {
        0
    } else {
        let b = least_loaded_index(h.drop_last());
        if less_loaded(h.last(), h[b]) { h.len() - 1 } else { b }
    }
}

/// The ids of the nodes of `h`, in order, except those equal to `id`.
pub open spec fn ids_except(h: Seq<EdgeNode>, id: Seq<char>) -> Seq<Seq<char>>
    decreases h.len(),
{
    if h.len() == 0 {
        Seq::empty()
    } else {
        let r = ids_except(h.drop_last(), id);
        if h.last().node_id@ != id { r.push(h.last().node_id@) } else { r }
    }
}

/// The first `n` elements of `s` (all of `s` when it is shorter).
pub open spec fn first_n<A>(s: Seq<A>, n: nat) -> Seq<A> {
    if s.len() <= n { s } else { s.take(n as int) }
}

/// The characters of each string.
pub open spec fn views(v: Seq<String>) -> Seq<Seq<char>> {
    v.map_values(|s: String| s@)
}

/// The fallback ids offered beside node `id`: the first three other nodes of `h`.
pub open spec fn alternatives_for(h: Seq<EdgeNode>, id: Seq<char>) -> Seq<Seq<char>> {
    first_n(ids_except(h, id), 3)
}

/// `sel` chooses `h[i]` for `reason`, offering the first three other nodes as alternatives.
pub open spec fn chooses(h: Seq<EdgeNode>, sel: NodeSelection, i: int, reason: SelectionReason) -> bool {
    &&& 0 <= i < h.len()
    &&& sel.node == h[i]
    &&& sel.reason == reason
    &&& views(sel.alternatives@) == alternatives_for(h, h[i].node_id@)
}

/// Spare capacity of a node.
pub open spec fn spare(n: EdgeNode) -> int {
    if n.current_load <= n.capacity { n.capacity - n.current_load } else { 0 }
}

/// Total spare capacity of `h`.
pub open spec fn total_spare(h: Seq<EdgeNode>) -> int
    decreases h.len(),
{
    if h.len() == 0 { 0 } else { total_spare(h.drop_last()) + spare(h.last()) }
}

/// Walking `h` from index `i`, the first node whose spare capacity exceeds
/// what is left of `r` after subtracting the spare capacities passed; -1 if none.
pub open spec fn weighted_from(h: Seq<EdgeNode>, r: int, i: int) -> int
    decreases h.len() - i,
{
    if i < 0 || i >= h.len() {
        -1
    } else if r < spare(h[i]) {
        i
    } else {
        weighted_from(h, r - spare(h[i]), i + 1)
    }
}

/// The least-loaded choice over `h`: none for an empty list, else the first node
/// of least load with up to three alternatives.
pub open spec fn least_loaded_choice(h: Seq<EdgeNode>, res: Option<NodeSelection>) -> bool {
    match res {
        None => h.len() == 0,
        Some(sel) => chooses(h, sel, least_loaded_index(h), SelectionReason::LeastLoaded),
    }
}

pub proof fn lemma_less_loaded_trans(a: EdgeNode, b: EdgeNode, c: EdgeNode)
    requires
        !less_loaded(a, b),
        less_loaded(c, b),
    ensures
        !less_loaded(a, c),
{
    let (na, da, nb, db, nc, dc) = (load_num(a), load_den(a), load_num(b), load_den(b), load_num(c), load_den(c));
    assert(da > 0 && db > 0 && dc > 0 && na >= 0 && nb >= 0 && nc >= 0);
    assert(na * dc >= nc * da) by (nonlinear_arith)
        requires
            da > 0,
            db > 0,
            dc > 0,
            na * db >= nb * da,
            nc * db < nb * dc,
    {
        assert((na * db) * dc >= (nb * da) * dc);
        assert((nc * db) * da < (nb * dc) * da);
        assert((na * dc) * db >= (nc * da) * db);
    }
}

/// The node at `least_loaded_index` is no more loaded than any other node of `h`.
pub proof fn lemma_least_loaded_minimal(h: Seq<EdgeNode>)
    requires
        h.len() > 0,
    ensures
        0 <= least_loaded_index(h) < h.len(),
        forall|j: int| 0 <= j < h.len() ==> !less_loaded(#[trigger] h[j], h[least_loaded_index(h)]),
    decreases h.len(),
{
    if h.len() > 1 {
        let t = h.drop_last();
        lemma_least_loaded_minimal(t);
        let b = least_loaded_index(t);
        assert forall|j: int| 0 <= j < h.len() implies !less_loaded(#[trigger] h[j], h[least_loaded_index(h)]) by {
            if less_loaded(h.last(), h[b]) {
                if j < h.len() - 1 {
                    assert(h[j] == t[j]);
                    lemma_less_loaded_trans(h[j], h[b], h.last());
                }
            } else {
                if j < h.len() - 1 {
                    assert(h[j] == t[j]);
                }
            }
        }
    }
}

/// The weighted choice over `h` for the draw `r`: none for an empty list; the
/// least-loaded choice when no node has spare capacity; else the node reached by
/// walking the list subtracting spare capacities from `r % total_spare`, with up to
/// three alternatives.
pub open spec fn weighted_choice(h: Seq<EdgeNode>, r: u64, res: Option<NodeSelection>) -> bool {
    &&& h.len() == 0 ==> res is None
    &&& h.len() > 0 && total_spare(h) == 0 ==> least_loaded_choice(h, res)
    &&& h.len() > 0 && total_spare(h) > 0 ==> {
        let i = weighted_from(h, r as int % total_spare(h), 0);
        &&& 0 <= i < h.len()
        &&& (res matches Some(sel) && chooses(h, sel, i, SelectionReason::Weighted))
    }
}

/// The round-robin choice over `h` at time `now`: none for an empty list, else the
/// node at `(now / 1e9) % len` with up to three alternatives.
pub open spec fn round_robin_choice(h: Seq<EdgeNode>, now: u64, res: Option<NodeSelection>) -> bool {
    &&& h.len() == 0 <==> res is None
    &&& h.len() > 0 ==> (res matches Some(sel)
        && chooses(h, sel, ((now / 1_000_000_000) as int) % (h.len() as int), SelectionReason::RoundRobin))
}

/// The uniform choice over `h` for the draw `r`: none for an empty list, else the
/// node at `r % len`, with no alternatives.
pub open spec fn random_choice(h: Seq<EdgeNode>, r: u64, res: Option<NodeSelection>) -> bool {
    &&& h.len() == 0 <==> res is None
    &&& h.len() > 0 ==> (res matches Some(sel) && {
        &&& sel.node == h[(r as int) % (h.len() as int)]
        &&& sel.reason == SelectionReason::OnlyAvailable
        &&& sel.alternatives@.len() == 0
    })
}

/// `ids_except` leaves `id` out and keeps only ids of nodes of `h`.
pub proof fn lemma_ids_except(h: Seq<EdgeNode>, id: Seq<char>)
    ensures
        ids_except(h, id).len() <= h.len(),
        forall|i: int| 0 <= i < ids_except(h, id).len() ==> #[trigger] ids_except(h, id)[i] != id
            && exists|j: int| 0 <= j < h.len() && h[j].node_id@ == ids_except(h, id)[i],
    decreases h.len(),
{
    if h.len() > 0 {
        let t = h.drop_last();
        lemma_ids_except(t, id);
        let r = ids_except(h, id);
        assert forall|i: int| 0 <= i < r.len() implies #[trigger] r[i] != id
            && exists|j: int| 0 <= j < h.len() && h[j].node_id@ == r[i] by {
            if i < ids_except(t, id).len() {
                assert(r[i] == ids_except(t, id)[i]);
                let j = choose|j: int| 0 <= j < t.len() && t[j].node_id@ == ids_except(t, id)[i];
                assert(h[j] == t[j]);
            } else {
                assert(h[h.len() - 1].node_id@ == r[i]);
            }
        }
    }
}

/// The alternatives offered beside node `id` are at most three ids of other nodes of `h`.
pub proof fn lemma_alternatives_for(h: Seq<EdgeNode>, id: Seq<char>)
    ensures
        alternatives_for(h, id).len() <= 3,
        forall|i: int| 0 <= i < alternatives_for(h, id).len() ==> #[trigger] alternatives_for(h, id)[i] != id
            && exists|j: int| 0 <= j < h.len() && h[j].node_id@ == alternatives_for(h, id)[i],
{
    lemma_ids_except(h, id);
    let e = ids_except(h, id);
    assert forall|i: int| 0 <= i < alternatives_for(h, id).len() implies #[trigger] alternatives_for(h, id)[i] != id
        && exists|j: int| 0 <= j < h.len() && h[j].node_id@ == alternatives_for(h, id)[i] by {
        assert(alternatives_for(h, id)[i] == e[i]);
    }
}

/// No two nodes of `h` carry the same id.
pub open spec fn distinct_ids(h: Seq<EdgeNode>) -> bool {
    forall|i: int, j: int| 0 <= i < j < h.len() ==> #[trigger] h[i].node_id@ != #[trigger] h[j].node_id@
}

/// With `id` absent from `h`, every node's id is kept.
proof fn lemma_ids_except_absent(h: Seq<EdgeNode>, id: Seq<char>)
    requires
        forall|i: int| 0 <= i < h.len() ==> #[trigger] h[i].node_id@ != id,
    ensures
        ids_except(h, id).len() == h.len(),
    decreases h.len(),
{
    if h.len() > 0 {
        let t = h.drop_last();
        assert forall|i: int| 0 <= i < t.len() implies #[trigger] t[i].node_id@ != id by {
            assert(t[i] == h[i]);
        }
        lemma_ids_except_absent(t, id);
    }
}

/// Among nodes of distinct ids, leaving out the id of one of them leaves one id
/// fewer than there are nodes.
pub proof fn lemma_ids_except_len(h: Seq<EdgeNode>, k: int)
    requires
        distinct_ids(h),
        0 <= k < h.len(),
    ensures
        ids_except(h, h[k].node_id@).len() == h.len() - 1,
    decreases h.len(),
{
    let id = h[k].node_id@;
    let t = h.drop_last();
    if k == h.len() - 1 {
        assert forall|i: int| 0 <= i < t.len() implies #[trigger] t[i].node_id@ != id by {
            assert(t[i] == h[i]);
        }
        lemma_ids_except_absent(t, id);
    } else {
        assert(distinct_ids(t)) by {
            assert forall|i: int, j: int| 0 <= i < j < t.len() implies #[trigger] t[i].node_id@ != #[trigger] t[j].node_id@ by {
                assert(t[i] == h[i] && t[j] == h[j]);
            }
        }
        assert(t[k] == h[k]);
        lemma_ids_except_len(t, k);
        assert(h.last().node_id@ != id);
    }
}

/// Beside a node of `h`, whose ids are distinct, the alternatives offered are
/// as many as there are other nodes, but at most three.
pub proof fn lemma_alternatives_count(h: Seq<EdgeNode>, k: int)
    requires
        distinct_ids(h),
        0 <= k < h.len(),
    ensures
        alternatives_for(h, h[k].node_id@).len() == if h.len() - 1 < 3 { h.len() - 1 } else { 3 },
        forall|i: int, j: int| 0 <= i < j < alternatives_for(h, h[k].node_id@).len() ==>
            #[trigger] alternatives_for(h, h[k].node_id@)[i] != #[trigger] alternatives_for(h, h[k].node_id@)[j],
{
    let id = h[k].node_id@;
    lemma_ids_except_len(h, k);
    lemma_ids_except_distinct(h, id);
    let e = ids_except(h, id);
    let a = alternatives_for(h, id);
    assert forall|i: int, j: int| 0 <= i < j < a.len() implies #[trigger] a[i] != #[trigger] a[j] by {
        assert(a[i] == e[i] && a[j] == e[j]);
    }
}

/// Beside any id, the alternatives offered from nodes of distinct ids are distinct.
pub proof fn lemma_alternatives_distinct(h: Seq<EdgeNode>, id: Seq<char>)
    requires
        distinct_ids(h),
    ensures
        forall|i: int, j: int| 0 <= i < j < alternatives_for(h, id).len() ==>
            #[trigger] alternatives_for(h, id)[i] != #[trigger] alternatives_for(h, id)[j],
{
    lemma_ids_except_distinct(h, id);
    let e = ids_except(h, id);
    let a = alternatives_for(h, id);
    assert forall|i: int, j: int| 0 <= i < j < a.len() implies #[trigger] a[i] != #[trigger] a[j] by {
        assert(a[i] == e[i] && a[j] == e[j]);
    }
}

/// Leaving an id out of the ids of nodes with distinct ids leaves distinct ids.
proof fn lemma_ids_except_distinct(h: Seq<EdgeNode>, id: Seq<char>)
    requires
        distinct_ids(h),
    ensures
        forall|i: int, j: int| 0 <= i < j < ids_except(h, id).len() ==>
            #[trigger] ids_except(h, id)[i] != #[trigger] ids_except(h, id)[j],
    decreases h.len(),
{
    if h.len() > 0 {
        let t = h.drop_last();
        assert(distinct_ids(t)) by {
            assert forall|i: int, j: int| 0 <= i < j < t.len() implies #[trigger] t[i].node_id@ != #[trigger] t[j].node_id@ by {
                assert(t[i] == h[i] && t[j] == h[j]);
            }
        }
        lemma_ids_except_distinct(t, id);
        lemma_ids_except(t, id);
        let r = ids_except(h, id);
        let rt = ids_except(t, id);
        assert forall|i: int, j: int| 0 <= i < j < r.len() implies #[trigger] r[i] != #[trigger] r[j] by {
            if j < rt.len() {
                assert(r[i] == rt[i] && r[j] == rt[j]);
            } else {
                assert(r[i] == rt[i]);
                assert(r[j] == h[h.len() - 1].node_id@);
                let q = choose|q: int| 0 <= q < t.len() && t[q].node_id@ == rt[i];
                assert(t[q] == h[q]);
            }
        }
    }
}

/// Whether `a` is strictly less loaded than `b`, by exact fractions.
pub fn is_less_loaded(a: &EdgeNode, b: &EdgeNode) -> (r: bool)
    ensures
        r == less_loaded(*a, *b),
{
    let (na, da): (u128, u128) = if a.capacity == 0 { (1, 1) } else { (a.current_load as u128, a.capacity as u128) };
    let (nb, db): (u128, u128) = if b.capacity == 0 { (1, 1) } else { (b.current_load as u128, b.capacity as u128) };
    proof {
        assert(na * db <= u64::MAX * u64::MAX) by (nonlinear_arith)
            requires na <= u64::MAX, db <= u64::MAX;
        assert(nb * da <= u64::MAX * u64::MAX) by (nonlinear_arith)
            requires nb <= u64::MAX, da <= u64::MAX;
    }
    na * db < nb * da
}

/// Whether `node` is healthy at time `now` under `cfg`.
pub fn is_healthy(cfg: &HealthCheckConfig, node: &EdgeNode, now: u64) -> (r: bool)
    ensures
        r == node_healthy(*cfg, *node, now),
{
    if now < node.last_heartbeat || now - node.last_heartbeat > cfg.heartbeat_timeout {
        return false;
    }
    let over = if node.capacity == 0 {
        100_000 > cfg.max_load_thousandths
    } else {
        proof {
            assert(cfg.max_load_thousandths as u128 * node.capacity as u128 <= u64::MAX * u64::MAX) by (nonlinear_arith)
                requires cfg.max_load_thousandths <= u64::MAX, node.capacity <= u64::MAX;
        }
        (node.current_load as u128) * 100_000 > (cfg.max_load_thousandths as u128) * (node.capacity as u128)
    };
    if over {
        return false;
    }
    node.current_load < node.capacity
}

/// The ids of the first `count` nodes of `h` other than `exclude`.
pub fn other_ids(h: &Vec<EdgeNode>, exclude: &str, count: usize) -> (ids: Vec<String>)
    ensures
        views(ids@) == first_n(ids_except(h@, exclude@), count as nat),
{
    let mut ids: Vec<String> = Vec::new();
    let mut i: usize = 0;
    while i < h.len() && ids.len() < count
        invariant
            i <= h.len(),
            ids.len() <= count,
            views(ids@) == first_n(ids_except(h@.take(i as int), exclude@), count as nat),
        decreases h.len() - i,
    {
        proof {
            assert(h@.take(i + 1).drop_last() =~= h@.take(i as int));
            assert(h@.take(i + 1).last() == h@[i as int]);
        }
        if !crate::text::str_eq(h[i].node_id.as_str(), exclude) {
            let id = h[i].node_id.clone();
            ids.push(id);
            proof {
                let prev = ids_except(h@.take(i as int), exclude@);
                assert(views(ids@) =~= views(ids@.drop_last()).push(h@[i as int].node_id@));
                assert(first_n(prev, count as nat) =~= prev);
                assert(first_n(prev.push(h@[i as int].node_id@), count as nat) =~= prev.push(h@[i as int].node_id@));
            }
        }
        i = i + 1;
    }
    proof {
        if i < h.len() {
            // `count` ids already taken: the rest of the list changes nothing.
            lemma_first_n_stable(h@, exclude@, i as int, count as nat);
        } else {
            assert(h@.take(i as int) =~= h@);
        }
    }
    ids
}

/// Once `n` ids are taken from a prefix, longer prefixes give the same first `n`.
pub proof fn lemma_first_n_stable(h: Seq<EdgeNode>, id: Seq<char>, i: int, n: nat)
    requires
        0 <= i <= h.len(),
        first_n(ids_except(h.take(i), id), n).len() >= n,
    ensures
        first_n(ids_except(h, id), n) == first_n(ids_except(h.take(i), id), n),
    decreases h.len() - i,
{
    if i < h.len() {
        let a = ids_except(h.take(i), id);
        let b = ids_except(h.take(i + 1), id);
        assert(h.take(i + 1).drop_last() =~= h.take(i));
        assert(a.len() >= n);
        assert(first_n(b, n) =~= first_n(a, n));
        lemma_first_n_stable(h, id, i + 1, n);
    } else {
        assert(h.take(i) =~= h);
    }
}

/// The first node of least load in `h`, with up to three alternatives.
pub fn pick_least_loaded(h: &Vec<EdgeNode>) -> (res: Option<NodeSelection>)
    ensures
        least_loaded_choice(h@, res),
        res matches Some(sel) ==> forall|j: int| 0 <= j < h@.len() ==> !less_loaded(#[trigger] h@[j], sel.node),
{
    if h.len() == 0 {
        return None;
    }
    let mut best: usize = 0;
    let mut i: usize = 1;
    while i < h.len()
        invariant
            1 <= i <= h.len(),
            best < i,
            best as int == least_loaded_index(h@.take(i as int)),
        decreases h.len() - i,
    {
        proof {
            assert(h@.take(i + 1).drop_last() =~= h@.take(i as int));
        }
        if is_less_loaded(&h[i], &h[best]) {
            best = i;
        }
        i = i + 1;
    }
    proof {
        assert(h@.take(i as int) =~= h@);
        lemma_least_loaded_minimal(h@);
    }
    let node = h[best].clone();
    let alternatives = other_ids(h, node.node_id.as_str(), 3);
    Some(NodeSelection { node, reason: SelectionReason::LeastLoaded, alternatives })
}

/// The weighted choice over `h` for the draw `r`: walk the nodes subtracting spare
/// capacities from `r % total_spare`, taking the first node whose spare capacity
/// exceeds what is left; the least-loaded choice when nothing has spare capacity.
pub fn pick_weighted(h: &Vec<EdgeNode>, r: u64) -> (res: Option<NodeSelection>)
    ensures
        weighted_choice(h@, r, res),
        free_before(h@, h@.len() as int) > 0 ==> (res matches Some(sel) && exists|i: int| {
            &&& 0 <= i < h@.len()
            &&& #[trigger] h@[i] == sel.node
            &&& h@[i].current_load < h@[i].capacity
            &&& free_before(h@, i) <= r as int % free_before(h@, h@.len() as int)
            &&& r as int % free_before(h@, h@.len() as int) < free_before(h@, i) + h@[i].capacity - h@[i].current_load
        }),
{
    let res = pick_weighted_walk(h, r);
    proof {
        if free_before(h@, h@.len() as int) > 0 {
            lemma_weighted_follows_free_capacity(h@, r, res);
        }
    }
    res
}

/// The walk behind `pick_weighted`.
fn pick_weighted_walk(h: &Vec<EdgeNode>, r: u64) -> (res: Option<NodeSelection>)
    ensures
        weighted_choice(h@, r, res),
{
    if h.len() == 0 {
        return None;
    }
    let mut total: u128 = 0;
    let mut i: usize = 0;
    while i < h.len()
        invariant
            i <= h.len(),
            total as int == total_spare(h@.take(i as int)),
            total <= i * (u64::MAX as int),
        decreases h.len() - i,
    {
        proof {
            assert(h@.take(i + 1).drop_last() =~= h@.take(i as int));
            assert(h@.len() <= u64::MAX);
            assert((i + 1) * (u64::MAX as int) == i * (u64::MAX as int) + u64::MAX) by (nonlinear_arith);
            assert((i + 1) * (u64::MAX as int) <= u64::MAX * (u64::MAX as int)) by (nonlinear_arith)
                requires i + 1 <= u64::MAX;
        }
        let n = &h[i];
        let s: usize = if n.current_load <= n.capacity { n.capacity - n.current_load } else { 0 };
        total = total + s as u128;
        i = i + 1;
    }
    proof {
        assert(h@.take(i as int) =~= h@);
    }
    if total == 0 {
        return pick_least_loaded(h);
    }
    proof { lemma_total_spare_bounds(h@); }
    let mut left: u128 = (r as u128) % total;
    let ghost r0 = left as int;
    let mut j: usize = 0;
    while j < h.len()
        invariant
            j <= h.len(),
            total > 0,
            total as int == total_spare(h@),
            r0 == r as int % total_spare(h@),
            weighted_from(h@, r0, 0) == weighted_from(h@, left as int, j as int),
            left as int + total_spare(h@.take(j as int)) == r0,
            r0 < total_spare(h@),
        decreases h.len() - j,
    {
        proof {
            assert(h@.take(j + 1).drop_last() =~= h@.take(j as int));
        }
        let n = &h[j];
        let s: usize = if n.current_load <= n.capacity { n.capacity - n.current_load } else { 0 };
        if left < s as u128 {
            let node = n.clone();
            let alternatives = other_ids(h, node.node_id.as_str(), 3);
            return Some(NodeSelection { node, reason: SelectionReason::Weighted, alternatives });
        }
        left = left - s as u128;
        j = j + 1;
    }
    proof {
        assert(h@.take(j as int) =~= h@);
        assert(false);
    }
    pick_least_loaded(h)
}

/// Capacity left free on the first `i` nodes of `h`: each node's capacity less
/// its load, nothing for a node at or over capacity.
pub open spec fn free_before(h: Seq<EdgeNode>, i: int) -> int
    decreases i,
{
    if i <= 0 || i > h.len() {
        0
    } else {
        free_before(h, i - 1) + if h[i - 1].current_load <= h[i - 1].capacity {
            h[i - 1].capacity - h[i - 1].current_load
        } else {
            0
        }
    }
}

proof fn lemma_free_before_take(h: Seq<EdgeNode>, i: int)
    requires
        0 <= i <= h.len(),
    ensures
        total_spare(h.take(i)) == free_before(h, i),
    decreases i,
{
    if i > 0 {
        assert(h.take(i).drop_last() =~= h.take(i - 1));
        lemma_free_before_take(h, i - 1);
    }
}

proof fn lemma_free_before_mono(h: Seq<EdgeNode>, i: int, j: int)
    requires
        0 <= i <= j <= h.len(),
    ensures
        free_before(h, i) <= free_before(h, j),
    decreases j - i,
{
    if i < j {
        lemma_free_before_mono(h, i, j - 1);
    }
}

proof fn lemma_weighted_from_span(h: Seq<EdgeNode>, x: int, i: int)
    requires
        0 <= i <= h.len(),
        0 <= x,
        free_before(h, i) + x < free_before(h, h.len() as int),
    ensures
        i <= weighted_from(h, x, i) < h.len(),
        free_before(h, weighted_from(h, x, i)) <= free_before(h, i) + x,
        free_before(h, i) + x < free_before(h, weighted_from(h, x, i) + 1),
    decreases h.len() - i,
{
    if i == h.len() {
        assert(false);
    }
    if x >= spare(h[i]) {
        lemma_weighted_from_span(h, x - spare(h[i]), i + 1);
    }
}

/// The weighted draw favours free capacity: when some capacity is free, the node
/// chosen for the draw `r` is the node whose share of the total free capacity
/// `T` holds `r % T`, where each node's share is its capacity less its load and
/// the shares are laid end to end in list order. So each node with free
/// capacity `f` is chosen for exactly `f` of the `T` draws in `[0, T)`.
pub proof fn lemma_weighted_follows_free_capacity(h: Seq<EdgeNode>, r: u64, res: Option<NodeSelection>)
    requires
        weighted_choice(h, r, res),
        free_before(h, h.len() as int) > 0,
    ensures
        res matches Some(sel) && exists|i: int| {
            &&& 0 <= i < h.len()
            &&& #[trigger] h[i] == sel.node
            &&& h[i].current_load < h[i].capacity
            &&& free_before(h, i) <= r as int % free_before(h, h.len() as int)
            &&& r as int % free_before(h, h.len() as int) < free_before(h, i) + h[i].capacity - h[i].current_load
        },
{
    let t = free_before(h, h.len() as int);
    lemma_free_before_take(h, h.len() as int);
    assert(h.take(h.len() as int) =~= h);
    assert(total_spare(h) == t);
    assert(h.len() > 0);
    let x = r as int % t;
    lemma_weighted_from_span(h, x, 0);
    let i = weighted_from(h, x, 0);
    assert(free_before(h, i + 1) == free_before(h, i) + spare(h[i]));
    assert(h[i] == res->0.node);
}

/// `total_spare` is never negative.
pub proof fn lemma_total_spare_bounds(h: Seq<EdgeNode>)
    ensures
        total_spare(h) >= 0,
    decreases h.len(),
{
    if h.len() > 0 {
        lemma_total_spare_bounds(h.drop_last());
    }
}

/// Round robin over `h` by wall-clock second: the node at `(now / 1e9) % len`.
pub fn pick_round_robin(h: &Vec<EdgeNode>, now: u64) -> (res: Option<NodeSelection>)
    ensures
        round_robin_choice(h@, now, res),
{
    if h.len() == 0 {
        return None;
    }
    let index = ((now / 1_000_000_000) % (h.len() as u64)) as usize;
    let node = h[index].clone();
    let alternatives = other_ids(h, node.node_id.as_str(), 3);
    Some(NodeSelection { node, reason: SelectionReason::RoundRobin, alternatives })
}

/// Uniform choice over `h` for the draw `r`: the node at `r % len`, no alternatives.
pub fn pick_random(h: &Vec<EdgeNode>, r: u64) -> (res: Option<NodeSelection>)
    ensures
        random_choice(h@, r, res),
{
    if h.len() == 0 {
        return None;
    }
    let index = (r % (h.len() as u64)) as usize;
    let node = h[index].clone();
    Some(NodeSelection { node, reason: SelectionReason::OnlyAvailable, alternatives: Vec::new() })
}

} // verus!
