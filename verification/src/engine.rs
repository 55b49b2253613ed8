//! The bidirectional best-first search engine.
//!
//! A `RoutingEngine` owns an edge store and the node neighbor cache in
//! front of it, and runs two simultaneous best-first searches — forward
//! from the start, backward from the end — meeting in the middle. The
//! engine's well-formedness ties the cache to the store: whatever is
//! cached for a node is exactly the store's adjacency for that node,
//! oriented away from it, so a search sees one coherent graph whether a
//! list comes from the cache or from a fresh query.

use crate::cache::EdgePointCache;
use crate::cost::H;
use crate::edge::{Edge, EdgePoint, SourceOrTarget};
use crate::geom::Point;
use crate::search::{frontier_inv, h, lemma_frontier_update, open_inv, sat_add, spec_sat_add,
    spec_traversal_cost, traversal_cost, OpenSet, ProgressSink, RouteError, SearchMap};
use crate::store::{store_serves_wf, EdgeStore};
use vstd::prelude::*;

verus! {

/// The edge bound to the direction that leads away from `node`.
pub open spec fn spec_away_from(e: Edge, node: i64) -> EdgePoint {
    if e.source == node {
        EdgePoint { edge: e, direction: SourceOrTarget::Target }
    } else {
        EdgePoint { edge: e, direction: SourceOrTarget::Source }
    }
}

/// An adjacency list oriented away from its node.
pub open spec fn spec_oriented(adj: Seq<Edge>, node: i64) -> Seq<EdgePoint> {
    adj.map_values(|e: Edge| spec_away_from(e, node))
}

/// A cache entry is coherent with an adjacency: absent, or exactly that
/// adjacency oriented away from the node.
pub open spec fn spec_entry_coherent(
    entry: Option<Seq<EdgePoint>>,
    adj: Seq<Edge>,
    node: i64,
) -> bool {
    match entry {
        Some(v) => v == spec_oriented(adj, node),
        None => true,
    }
}

/// The search engine: an edge store with the neighbor cache in front.
pub struct RoutingEngine<S: EdgeStore> {
    /// The underlying edge store.
    pub store: S,
    /// The neighbor cache.
    pub cache: EdgePointCache,
}

impl<S: EdgeStore> RoutingEngine<S> {
    /// The adjacency the engine routes over.
    pub open spec fn spec_adjacency(&self, node: i64) -> Seq<Edge> {
        self.store.spec_adjacency(node)
    }

    /// Well-formed: the cache is, the store serves well-formed data, and
    /// every cache entry is the store's adjacency for its node, oriented
    /// away from it.
    pub open spec fn wf(&self) -> bool {
        &&& self.cache.wf()
        &&& store_serves_wf(&self.store)
        &&& forall|n: i64|
            spec_entry_coherent(
                #[trigger] self.cache.spec_get(n),
                self.store.spec_adjacency(n),
                n,
            )
    }

    /// An engine over `store` with an empty cache of the given capacity.
    pub fn new(store: S, cache_capacity: usize) -> (e: RoutingEngine<S>)
        requires
            cache_capacity >= 1,
            store_serves_wf(&store),
        ensures
            e.wf(),
            e.store == store,
            e.cache.spec_len() == 0,
    {
        RoutingEngine { store, cache: EdgePointCache::new(cache_capacity) }
    }

    /// The traversals leading away from `node`: from the cache when
    /// present, else from the store, caching what came back. A store
    /// failure degrades to "no neighbors" for this attempt and caches
    /// nothing. A hit is served without touching the store; whatever was
    /// fetched and returned non-empty is cached, so the immediate repeat
    /// lookup is a hit.
    pub fn get_neighbors(&mut self, node: i64) -> (r: Vec<EdgePoint>)
        requires
            old(self).wf(),
        ensures
            final(self).wf(),
            forall|n: i64|
                #[trigger] final(self).spec_adjacency(n) == old(self).spec_adjacency(n),
            r@ == spec_oriented(old(self).spec_adjacency(node), node) || r@.len() == 0,
            forall|j: int|
                0 <= j < r@.len() ==> (#[trigger] r@[j]).wf() && r@[j].spec_origin_node_id()
                    == node,
            old(self).cache.spec_get(node) matches Some(v) ==> {
                &&& r@ == v
                &&& final(self).cache.spec_entries() == old(self).cache.spec_entries()
                &&& final(self).store == old(self).store
            },
            r@.len() > 0 ==> final(self).cache.spec_get(node) == Some(r@),
    {
        proof {
            self.lemma_oriented_wf(node);
        }
        if let Some(v) = self.cache.get(node) {
            let out = v.clone();
            proof {
                assert(out@ =~= v@);
            }
            return out;
        }
        match self.store.neighbors_of(node) {
            Ok(edges) => {
                proof {
                    lemma_serves_wf_preserved(old(self).store, self.store);
                    assert forall|n: i64|
                        spec_entry_coherent(
                            #[trigger] self.cache.spec_get(n),
                            self.store.spec_adjacency(n),
                            n,
                        ) by {
                        assert(self.store.spec_adjacency(n) == old(self).spec_adjacency(n));
                    }
                }
                let ghost adj = edges@;
                let n_edges = edges.len();
                let mut out: Vec<EdgePoint> = Vec::new();
                let mut i: usize = 0;
                while i < n_edges
                    invariant
                        n_edges == edges@.len(),
                        edges@ == adj,
                        0 <= i <= n_edges,
                        out@.len() == i,
                        forall|j: int|
                            0 <= j < i ==> #[trigger] out@[j] == spec_away_from(adj[j], node),
                    decreases n_edges - i,
                {
                    out.push(EdgePoint::away_from(edges[i], node));
                    i = i + 1;
                }
                proof {
                    assert(out@ =~= spec_oriented(adj, node));
                }
                let cached = out.clone();
                proof {
                    assert(cached@ =~= out@);
                }
                let ghost mid_cache = self.cache;
                self.cache.insert(node, cached);
                proof {
                    assert forall|n: i64|
                        spec_entry_coherent(
                            #[trigger] self.cache.spec_get(n),
                            self.store.spec_adjacency(n),
                            n,
                        ) by {
                        if n != node && self.cache.spec_get(n) is Some {
                            assert(self.cache.spec_get(n) == mid_cache.spec_get(n));
                        }
                    }
                    assert(self.wf());
                    lemma_oriented_points(adj, node);
                }
                out
            },
            Err(_) => {
                proof {
                    lemma_serves_wf_preserved(old(self).store, self.store);
                    assert forall|n: i64|
                        spec_entry_coherent(
                            #[trigger] self.cache.spec_get(n),
                            self.store.spec_adjacency(n),
                            n,
                        ) by {
                        assert(self.store.spec_adjacency(n) == old(self).spec_adjacency(n));
                    }
                }
                Vec::new()
            },
        }
    }

    /// What an oriented adjacency list's elements satisfy, given a
    /// well-formed engine.
    proof fn lemma_oriented_wf(&self, node: i64)
        requires
            self.wf(),
        ensures
            forall|j: int|
                0 <= j < spec_oriented(self.spec_adjacency(node), node).len() ==> {
                    let ep = #[trigger] spec_oriented(self.spec_adjacency(node), node)[j];
                    ep.wf() && ep.spec_origin_node_id() == node
                },
    {
        lemma_oriented_points_from_serves(&self.store, node);
    }

    /// The search state arriving at `node`: the reverse of its first
    /// outgoing traversal. `Err` when the node has no edges here or the
    /// store could not be asked.
    fn seed_point(&mut self, node: i64) -> (r: Result<EdgePoint, RouteError>)
        requires
            old(self).wf(),
        ensures
            final(self).wf(),
            forall|n: i64|
                #[trigger] final(self).spec_adjacency(n) == old(self).spec_adjacency(n),
            r matches Ok(ep) ==> ep.wf() && ep.spec_node_id() == node,
            r matches Err(e) ==> e == RouteError::NodeNotFound(node),
            old(self).spec_adjacency(node).len() == 0 ==> r is Err,
    {
        let nbrs = self.get_neighbors(node);
        if nbrs.len() == 0 {
            Err(RouteError::NodeNotFound(node))
        } else {
            let first = nbrs[0];
            let ep = first.reverse();
            proof {
                assert(ep.spec_node_id() == first.spec_origin_node_id());
            }
            Ok(ep)
        }
    }

    /// Certifies a reconstructed waypoint list against the served graph:
    /// every consecutive pair of waypoints must be joined by an edge the
    /// store serves for the earlier waypoint's node. A list that cannot be
    /// certified — possible only when the store answers incoherently
    /// between expansion and reconstruction — is not handed out.
    fn certify_waypoint_chain(&mut self, points: &Vec<Point>) -> (ok: bool)
        requires
            old(self).wf(),
        ensures
            final(self).wf(),
            forall|n: i64|
                #[trigger] final(self).spec_adjacency(n) == old(self).spec_adjacency(n),
            ok ==> forall|j: int|
                1 <= j < points@.len() ==> spec_nodes_linked(
                    old(self).spec_adjacency(points@[j - 1].node_id),
                    points@[j - 1].node_id,
                    (#[trigger] points@[j]).node_id,
                ),
    {
        let count = points.len();
        let mut j: usize = 1;
        while j < count
            invariant
                count == points@.len(),
                1 <= j,
                count > 0 ==> j <= count,
                self.wf(),
                forall|n: i64|
                    #[trigger] self.spec_adjacency(n) == old(self).spec_adjacency(n),
                forall|t: int|
                    1 <= t < j ==> spec_nodes_linked(
                        old(self).spec_adjacency(points@[t - 1].node_id),
                        points@[t - 1].node_id,
                        (#[trigger] points@[t]).node_id,
                    ),
            decreases count - j,
        {
            let from = points[j - 1].node_id;
            let to = points[j].node_id;
            let nbrs = self.get_neighbors(from);
            let n = nbrs.len();
            let mut k: usize = 0;
            let mut found = false;
            while k < n
                invariant
                    n == nbrs@.len(),
                    0 <= k <= n,
                    found ==> exists|l: int|
                        0 <= l < nbrs@.len() && (#[trigger] nbrs@[l]).spec_node_id() == to,
                decreases n - k,
            {
                if nbrs[k].get_node_id() == to {
                    found = true;
                }
                k = k + 1;
            }
            if !found {
                return false;
            }
            proof {
                let l = choose|l: int|
                    0 <= l < nbrs@.len() && (#[trigger] nbrs@[l]).spec_node_id() == to;
                assert(nbrs@.len() > 0);
                assert(nbrs@ == spec_oriented(old(self).spec_adjacency(from), from));
                assert(nbrs@[l] == spec_away_from(old(self).spec_adjacency(from)[l], from));
            }
            j = j + 1;
        }
        true
    }

    /// Drops the cache entries of the given nodes: the next lookup for any
    /// of them re-queries the store. Entries of other nodes are untouched,
    /// so invalidating two overlapping sets, in either order, leaves the
    /// full union invalidated.
    pub fn clear_nodes_cache(&mut self, node_ids: &Vec<i64>)
        requires
            old(self).wf(),
        ensures
            final(self).wf(),
            forall|n: i64|
                #[trigger] final(self).spec_adjacency(n) == old(self).spec_adjacency(n),
            forall|i: int|
                0 <= i < node_ids@.len() ==> final(self).cache.spec_get(
                    #[trigger] node_ids@[i],
                ) is None,
            forall|n: i64|
                !node_ids@.contains(n) ==> #[trigger] final(self).cache.spec_get(n) == old(
                    self,
                ).cache.spec_get(n),
    {
        let n = node_ids.len();
        let mut i: usize = 0;
        while i < n
            invariant
                n == node_ids@.len(),
                0 <= i <= n,
                self.wf(),
                self.store == old(self).store,
                forall|j: int|
                    0 <= j < i ==> self.cache.spec_get(#[trigger] node_ids@[j]) is None,
                forall|m: i64|
                    !node_ids@.contains(m) ==> #[trigger] self.cache.spec_get(m) == old(
                        self,
                    ).cache.spec_get(m),
            decreases n - i,
        {
            let ghost before = self.cache;
            self.cache.remove(node_ids[i]);
            proof {
                assert forall|j: int|
                    0 <= j < i + 1 implies self.cache.spec_get(#[trigger] node_ids@[j]) is None by {
                    if node_ids@[j] != node_ids@[i as int] {
                        assert(self.cache.spec_get(node_ids@[j]) == before.spec_get(
                            node_ids@[j],
                        ));
                    }
                }
                assert forall|m: i64|
                    !node_ids@.contains(m) implies #[trigger] self.cache.spec_get(m) == old(
                    self,
                ).cache.spec_get(m) by {
                    assert(m != node_ids@[i as int]);
                }
                assert forall|m: i64|
                    spec_entry_coherent(
                        #[trigger] self.cache.spec_get(m),
                        self.store.spec_adjacency(m),
                        m,
                    ) by {
                    if m != node_ids@[i as int] {
                        assert(self.cache.spec_get(m) == before.spec_get(m));
                    }
                }
            }
            i = i + 1;
        }
    }

    /// The bidirectional best-first search: two frontiers, forward from
    /// `start_node_id` and backward from `end_node_id`, expanded in
    /// ascending estimated-total-cost order until the stop condition
    /// certifies the best meeting found, the expansion cap of the profile
    /// is reached, or a frontier runs dry. On success the waypoints run
    /// from the start node to the end node and every consecutive pair is
    /// certified joined by a served edge of the earlier waypoint's node,
    /// so a non-empty result implies the two nodes are connected in the
    /// served graph; an exhausted or capped search is the normal "no
    /// route" outcome, an empty list, never an error. A start or end node
    /// with no served edges is owed its error. The other `Err` is a
    /// progress consumer that went away mid-search.
    ///
    /// Every tenth expansion is offered to the progress sink; a sink that
    /// reports itself disconnected aborts the search promptly. A sink that
    /// accepts everything observes without changing the outcome.
    pub fn a_star_bidirectional<HH: H, PS: ProgressSink>(
        &mut self,
        start_node_id: i64,
        end_node_id: i64,
        profile: &HH,
        sink: &mut PS,
    ) -> (r: Result<Vec<Point>, RouteError>)
        requires
            old(self).wf(),
        ensures
            final(self).wf(),
            forall|n: i64|
                #[trigger] final(self).spec_adjacency(n) == old(self).spec_adjacency(n),
            r matches Ok(points) ==> (points@.len() > 0 ==> points@[0].node_id == start_node_id
                && points@[points@.len() - 1].node_id == end_node_id),
            r matches Err(e) ==> (e == RouteError::NodeNotFound(start_node_id) || e
                == RouteError::NodeNotFound(end_node_id) || e == RouteError::Cancelled),
            old(self).spec_adjacency(start_node_id).len() == 0 ==> r == Err::<
                Vec<Point>,
                RouteError,
            >(RouteError::NodeNotFound(start_node_id)),
            old(self).spec_adjacency(end_node_id).len() == 0 ==> r is Err,
            r matches Ok(points) ==> forall|j: int|
                1 <= j < points@.len() ==> spec_nodes_linked(
                    old(self).spec_adjacency(points@[j - 1].node_id),
                    points@[j - 1].node_id,
                    (#[trigger] points@[j]).node_id,
                ),
    {
        let start_node = match self.seed_point(start_node_id) {
            Ok(ep) => ep,
            Err(e) => {
                return Err(e);
            },
        };
        let end_node = match self.seed_point(end_node_id) {
            Ok(ep) => ep,
            Err(e) => {
                return Err(e);
            },
        };
        if start_node_id == end_node_id {
            let mut points: Vec<Point> = Vec::new();
            points.push(start_node.to_point());
            return Ok(points);
        }
        let sk = start_node.key();
        let ek = end_node.key();
        if sk.0 == ek.0 && sk.1 == ek.1 {
            // The two seeds denote the same search state although the
            // nodes differ: the store is inconsistent about this edge, and
            // no route can be certified over it.
            return Ok(Vec::new());
        }
        let mut g_fwd: SearchMap<u64> = SearchMap::new();
        let mut pred_fwd: SearchMap<EdgePoint> = SearchMap::new();
        let mut open_fwd = OpenSet::new();
        g_fwd.set(sk, 0);
        open_fwd.push(h(&start_node, &end_node), start_node);
        let mut g_bwd: SearchMap<u64> = SearchMap::new();
        let mut pred_bwd: SearchMap<EdgePoint> = SearchMap::new();
        let mut open_bwd = OpenSet::new();
        g_bwd.set(ek, 0);
        open_bwd.push(h(&end_node, &start_node), end_node);
        let mut meeting: Option<EdgePoint> = None;
        let mut best: u64 = u64::MAX;
        let cap = profile.get_max_point();
        let mut expansions: u64 = 0;
        loop
            invariant
                self.wf(),
                forall|n: i64|
                    #[trigger] self.spec_adjacency(n) == old(self).spec_adjacency(n),
                start_node.wf(),
                end_node.wf(),
                start_node.spec_node_id() == start_node_id,
                end_node.spec_node_id() == end_node_id,
                sk == start_node.spec_key(),
                ek == end_node.spec_key(),
                sk != ek,
                old(self).spec_adjacency(start_node_id).len() > 0,
                old(self).spec_adjacency(end_node_id).len() > 0,
                frontier_inv(g_fwd@, pred_fwd@, start_node),
                frontier_inv(g_bwd@, pred_bwd@, end_node),
                open_inv(open_fwd@, g_fwd@),
                open_inv(open_bwd@, g_bwd@),
                meeting matches Some(mm) ==> mm.wf() && g_fwd@.dom().contains(mm.spec_key())
                    && g_bwd@.dom().contains(mm.spec_key()),
                expansions <= cap,
            ensures
                self.wf(),
                forall|n: i64|
                    #[trigger] self.spec_adjacency(n) == old(self).spec_adjacency(n),
                frontier_inv(g_fwd@, pred_fwd@, start_node),
                frontier_inv(g_bwd@, pred_bwd@, end_node),
                meeting matches Some(mm) ==> mm.wf() && g_fwd@.dom().contains(mm.spec_key())
                    && g_bwd@.dom().contains(mm.spec_key()),
            decreases cap - expansions,
        {
            if open_fwd.is_empty() || open_bwd.is_empty() {
                break ;
            }
            // Stop condition: once no pair of frontier heads can beat the
            // best meeting already found, that meeting is certified.
            let head_f = open_fwd.peek_min();
            let head_b = open_bwd.peek_min();
            if let (Some(ff), Some(fb)) = (head_f, head_b) {
                if sat_add(ff, fb) >= best {
                    break ;
                }
            }
            if expansions >= cap {
                break ;
            }
            expansions = expansions + 1;
            let notify = expansions % 10 == 0;
            // Forward step.
            let ghost pre_open_f = open_fwd@;
            if let Some(pair) = open_fwd.pop_min() {
                let current = pair.1;
                proof {
                    let l = choose|l: int|
                        0 <= l < pre_open_f.len() && pre_open_f[l] == pair;
                    assert(pre_open_f[l].1.wf());
                    assert forall|j: int|
                        0 <= j < open_fwd@.len() implies (#[trigger] open_fwd@[j]).1.wf()
                            && g_fwd@.dom().contains(open_fwd@[j].1.spec_key()) by {
                        let l2 = choose|l2: int|
                            0 <= l2 < pre_open_f.len() && pre_open_f[l2] == open_fwd@[j];
                        assert(pre_open_f[l2].1.wf());
                    }
                }
                if let Some(gb) = g_bwd.get(current.key()) {
                    let gf = match g_fwd.get(current.key()) {
                        Some(v) => v,
                        None => {
                            proof {
                                assert(false);
                            }
                            0
                        },
                    };
                    let cs = sat_add(gf, gb);
                    if cs < best {
                        best = cs;
                        meeting = Some(current);
                    }
                }
                if notify {
                    if !sink.send_segment(
                        current.edge.lon1,
                        current.edge.lat1,
                        current.edge.lon2,
                        current.edge.lat2,
                    ) {
                        return Err(RouteError::Cancelled);
                    }
                }
                let nbrs = self.get_neighbors(current.get_node_id());
                expand_frontier(
                    &nbrs,
                    &current,
                    false,
                    profile,
                    &end_node,
                    &mut g_fwd,
                    &mut pred_fwd,
                    &mut open_fwd,
                    Ghost(start_node),
                );
            }
            // Backward step: costs are evaluated in the reverse traversal
            // direction.
            let ghost pre_open_b = open_bwd@;
            if let Some(pair) = open_bwd.pop_min() {
                let current = pair.1;
                proof {
                    let l = choose|l: int|
                        0 <= l < pre_open_b.len() && pre_open_b[l] == pair;
                    assert(pre_open_b[l].1.wf());
                    assert forall|j: int|
                        0 <= j < open_bwd@.len() implies (#[trigger] open_bwd@[j]).1.wf()
                            && g_bwd@.dom().contains(open_bwd@[j].1.spec_key()) by {
                        let l2 = choose|l2: int|
                            0 <= l2 < pre_open_b.len() && pre_open_b[l2] == open_bwd@[j];
                        assert(pre_open_b[l2].1.wf());
                    }
                }
                if let Some(gf) = g_fwd.get(current.key()) {
                    let gb = match g_bwd.get(current.key()) {
                        Some(v) => v,
                        None => {
                            proof {
                                assert(false);
                            }
                            0
                        },
                    };
                    let cs = sat_add(gf, gb);
                    if cs < best {
                        best = cs;
                        meeting = Some(current);
                    }
                }
                if notify {
                    if !sink.send_segment(
                        current.edge.lon1,
                        current.edge.lat1,
                        current.edge.lon2,
                        current.edge.lat2,
                    ) {
                        return Err(RouteError::Cancelled);
                    }
                }
                let nbrs = self.get_neighbors(current.get_node_id());
                expand_frontier(
                    &nbrs,
                    &current,
                    true,
                    profile,
                    &start_node,
                    &mut g_bwd,
                    &mut pred_bwd,
                    &mut open_bwd,
                    Ghost(end_node),
                );
            }
        }
        let m = match meeting {
            Some(m) => m,
            None => {
                // Frontiers exhausted, or the cap reached, without a
                // meeting point: no route, a normal outcome.
                return Ok(Vec::new());
            },
        };
        // Forward half: walk the predecessor chain from the meeting back
        // to the start seed. Costs strictly decrease along the chain, so
        // the walk terminates, and it can only stop at the seed's state.
        let mut fwd_rev: Vec<EdgePoint> = Vec::new();
        let mut cur = m;
        loop
            invariant
                frontier_inv(g_fwd@, pred_fwd@, start_node),
                cur.wf(),
                g_fwd@.dom().contains(cur.spec_key()),
                fwd_rev@.len() == 0 ==> cur == m,
            ensures
                cur.wf(),
                g_fwd@.dom().contains(cur.spec_key()),
                !pred_fwd@.dom().contains(cur.spec_key()),
                fwd_rev@.len() == 0 ==> cur == m,
            decreases g_fwd@[cur.spec_key()],
        {
            match pred_fwd.get(cur.key()) {
                Some(p) => {
                    fwd_rev.push(cur);
                    cur = p;
                },
                None => {
                    break ;
                },
            }
        }
        proof {
            if pred_fwd@.dom().contains(m.spec_key()) {
                assert(fwd_rev@.len() >= 1);
            }
        }
        fwd_rev.push(start_node);
        let ghost fwd_rev_view = fwd_rev@;
        let total = fwd_rev.len();
        let mut full: Vec<EdgePoint> = Vec::new();
        let mut i2: usize = total;
        while i2 > 0
            invariant
                total == fwd_rev@.len(),
                fwd_rev@ == fwd_rev_view,
                0 <= i2 <= total,
                full@.len() == total - i2,
                forall|j: int|
                    0 <= j < full@.len() ==> #[trigger] full@[j] == fwd_rev@[total - 1 - j],
            decreases i2,
        {
            i2 = i2 - 1;
            full.push(fwd_rev[i2]);
        }
        proof {
            assert(full@[0] == fwd_rev_view[total - 1]);
            assert(full@[0] == start_node);
        }
        let ghost flen0 = full@.len();
        // Backward half: walk the predecessor chain from the meeting
        // toward the end seed, appending as we go; the chain's terminal
        // state is the end seed's, and the seed itself closes the route.
        let mut cur2 = m;
        let mut first = true;
        loop
            invariant
                frontier_inv(g_bwd@, pred_bwd@, end_node),
                cur2.wf(),
                g_bwd@.dom().contains(cur2.spec_key()),
                full@.len() >= 1,
                full@.len() >= flen0,
                full@[0] == start_node,
                first ==> cur2 == m && full@.len() == flen0,
            ensures
                full@.len() >= 1,
                full@.len() >= flen0,
                full@[0] == start_node,
                !pred_bwd@.dom().contains(cur2.spec_key()),
                first ==> cur2 == m && full@.len() == flen0,
            decreases g_bwd@[cur2.spec_key()],
        {
            match pred_bwd.get(cur2.key()) {
                Some(nx) => {
                    if !first {
                        let ghost pre = full@;
                        full.push(cur2);
                        proof {
                            assert(full@[0] == pre[0]);
                        }
                    }
                    first = false;
                    cur2 = nx;
                },
                None => {
                    break ;
                },
            }
        }
        if first {
            proof {
                // The meeting has no backward predecessor, so its state is
                // the end seed's; the seeds' states differ, so the forward
                // chain is not empty and the meeting sits at the end of
                // `full`, where the end seed belongs.
                assert(m.spec_key() == ek);
                assert(pred_fwd@.dom().contains(m.spec_key()));
                assert(flen0 >= 2);
            }
            let ghost pre = full@;
            let _ = full.pop();
            proof {
                assert(full@[0] == pre[0]);
            }
        }
        let ghost pre_push = full@;
        full.push(end_node);
        proof {
            assert(full@[0] == pre_push[0]);
            assert(full@[full@.len() - 1] == end_node);
        }
        let count = full.len();
        let mut points: Vec<Point> = Vec::new();
        let mut i3: usize = 0;
        while i3 < count
            invariant
                count == full@.len(),
                0 <= i3 <= count,
                points@.len() == i3,
                forall|j: int|
                    0 <= j < i3 ==> #[trigger] points@[j] == full@[j].spec_point(),
            decreases count - i3,
        {
            points.push(full[i3].to_point());
            i3 = i3 + 1;
        }
        proof {
            assert(points@[0] == full@[0].spec_point());
            assert(points@[points@.len() - 1] == full@[full@.len() - 1].spec_point());
        }
        if self.certify_waypoint_chain(&points) {
            Ok(points)
        } else {
            Ok(Vec::new())
        }
    }

    /// Clears the whole cache — so with no sample routes it ends empty —
    /// and warms it again by routing the given sample pairs under the
    /// given profile, as run after a data re-import.
    pub fn clear_cache_and_reload<HH: H>(&mut self, sample_routes: &Vec<(i64, i64)>, profile: &HH)
        requires
            old(self).wf(),
        ensures
            final(self).wf(),
            forall|n: i64|
                #[trigger] final(self).spec_adjacency(n) == old(self).spec_adjacency(n),
            sample_routes@.len() == 0 ==> final(self).cache.spec_len() == 0 && forall|n: i64|
                #[trigger] final(self).cache.spec_get(n) is None,
    {
        self.clear_all_cache();
        let n = sample_routes.len();
        let mut i: usize = 0;
        while i < n
            invariant
                n == sample_routes@.len(),
                0 <= i <= n,
                self.wf(),
                forall|m: i64|
                    #[trigger] self.spec_adjacency(m) == old(self).spec_adjacency(m),
                sample_routes@.len() == 0 ==> self.cache.spec_len() == 0 && forall|m: i64|
                    #[trigger] self.cache.spec_get(m) is None,
            decreases n - i,
        {
            let pair = sample_routes[i];
            let mut sink = crate::search::NullSink {  };
            let _ = self.a_star_bidirectional(pair.0, pair.1, profile, &mut sink);
            i = i + 1;
        }
    }

    /// Empties the whole cache, as after a data re-import.
    pub fn clear_all_cache(&mut self)
        requires
            old(self).wf(),
        ensures
            final(self).wf(),
            forall|n: i64|
                #[trigger] final(self).spec_adjacency(n) == old(self).spec_adjacency(n),
            final(self).cache.spec_len() == 0,
            forall|n: i64| #[trigger] final(self).cache.spec_get(n) is None,
    {
        self.cache.clear();
    }
}

/// Two nodes are joined in the served graph: some edge served for
/// `from_node` leads away from it and arrives at `to_node`.
pub open spec fn spec_nodes_linked(adj: Seq<Edge>, from_node: i64, to_node: i64) -> bool {
    exists|i: int|
        0 <= i < adj.len() && spec_away_from(#[trigger] adj[i], from_node).spec_node_id()
            == to_node
}

/// The traversal a profile scores during expansion: the neighbor itself on
/// the forward frontier, its reverse on the backward one.
pub open spec fn spec_scored(nb: EdgePoint, reverse_cost: bool) -> EdgePoint {
    if reverse_cost {
        nb.spec_reverse()
    } else {
        nb
    }
}

/// What one expansion owes for one offered neighbor: a recorded best-known
/// cost no worse than the cost of reaching it over `cur`, unless even that
/// cost saturates.
pub open spec fn spec_relaxed<HH: H>(
    g: Map<(i64, bool), u64>,
    g_cur: int,
    nb: EdgePoint,
    reverse_cost: bool,
    profile: HH,
) -> bool {
    let scored = spec_scored(nb, reverse_cost);
    let t = spec_sat_add(g_cur, spec_traversal_cost(scored, profile.spec_cost(scored)));
    t < u64::MAX ==> g.dom().contains(nb.spec_key()) && g[nb.spec_key()] <= t
}

/// Expands one frontier from `cur` over the fetched neighbor list `nbrs`:
/// every offered traversal is scored — against its own direction on the
/// forward frontier, against the reverse on the backward one — and
/// recorded where it improves the best-known cost. Afterwards every
/// offered neighbor's best-known cost is no worse than via `cur`, no
/// recorded cost has risen, nothing recorded is lost, and no state outside
/// the offered list appears.
fn expand_frontier<HH: H>(
    nbrs: &Vec<EdgePoint>,
    cur: &EdgePoint,
    reverse_cost: bool,
    profile: &HH,
    goal: &EdgePoint,
    g: &mut SearchMap<u64>,
    pred: &mut SearchMap<EdgePoint>,
    open: &mut OpenSet,
    seed: Ghost<EdgePoint>,
)
    requires
        cur.wf(),
        goal.wf(),
        forall|j: int| 0 <= j < nbrs@.len() ==> (#[trigger] nbrs@[j]).wf(),
        old(g)@.dom().contains(cur.spec_key()),
        frontier_inv(old(g)@, old(pred)@, seed@),
        open_inv(old(open)@, old(g)@),
    ensures
        frontier_inv(final(g)@, final(pred)@, seed@),
        open_inv(final(open)@, final(g)@),
        forall|k: (i64, bool)|
            old(g)@.dom().contains(k) ==> {
                &&& #[trigger] final(g)@.dom().contains(k)
                &&& final(g)@[k] <= old(g)@[k]
            },
        forall|k: (i64, bool)|
            #[trigger] final(g)@.dom().contains(k) && !old(g)@.dom().contains(k) ==> exists|j: int|
                0 <= j < nbrs@.len() && (#[trigger] nbrs@[j]).spec_key() == k,
        forall|j: int|
            0 <= j < nbrs@.len() ==> spec_relaxed(
                final(g)@,
                old(g)@[cur.spec_key()] as int,
                #[trigger] nbrs@[j],
                reverse_cost,
                *profile,
            ),
{
    let gcur = match g.get(cur.key()) {
        Some(v) => v,
        None => {
            proof {
                assert(false);
            }
            0
        },
    };
    let n = nbrs.len();
    let mut i: usize = 0;
    while i < n
        invariant
            n == nbrs@.len(),
            0 <= i <= n,
            forall|j: int| 0 <= j < n ==> (#[trigger] nbrs@[j]).wf(),
            cur.wf(),
            goal.wf(),
            frontier_inv(g@, pred@, seed@),
            open_inv(open@, g@),
            g@.dom().contains(cur.spec_key()),
            g@[cur.spec_key()] == gcur,
            gcur == old(g)@[cur.spec_key()],
            gcur < u64::MAX,
            forall|k: (i64, bool)|
                old(g)@.dom().contains(k) ==> #[trigger] g@.dom().contains(k) && g@[k] <= old(
                    g,
                )@[k],
            forall|k: (i64, bool)|
                #[trigger] g@.dom().contains(k) && !old(g)@.dom().contains(k) ==> exists|j: int|
                    0 <= j < i && (#[trigger] nbrs@[j]).spec_key() == k,
            forall|j: int|
                0 <= j < i ==> spec_relaxed(
                    g@,
                    gcur as int,
                    #[trigger] nbrs@[j],
                    reverse_cost,
                    *profile,
                ),
        decreases n - i,
    {
        let nb = nbrs[i];
        let cost_ep = if reverse_cost {
            nb.reverse()
        } else {
            nb
        };
        proof {
            assert(cost_ep.wf());
            assert(cost_ep == spec_scored(nb, reverse_cost));
        }
        let factor = profile.get_cost(&cost_ep);
        let w = traversal_cost(&cost_ep, factor);
        let tentative = sat_add(gcur, w);
        let ghost pre_g = g@;
        let better = match g.get(nb.key()) {
            Some(go) => tentative < go,
            None => tentative < u64::MAX,
        };
        if better {
            proof {
                lemma_frontier_update(g@, pred@, seed@, *cur, nb, tentative);
            }
            pred.set(nb.key(), *cur);
            g.set(nb.key(), tentative);
            let est = h(&nb, goal);
            let f = sat_add(tentative, est);
            let ghost pre_open = open@;
            open.push(f, nb);
            proof {
                assert forall|j: int|
                    0 <= j < open@.len() implies (#[trigger] open@[j]).1.wf()
                        && g@.dom().contains(open@[j].1.spec_key()) by {
                    if j < pre_open.len() {
                        assert(open@[j] == pre_open[j]);
                    } else {
                        assert(open@[j] == (f, nb));
                    }
                }
            }
        }
        proof {
            assert forall|j: int|
                0 <= j < i + 1 implies spec_relaxed(
                g@,
                gcur as int,
                #[trigger] nbrs@[j],
                reverse_cost,
                *profile,
            ) by {
                if j < i {
                    assert(spec_relaxed(pre_g, gcur as int, nbrs@[j], reverse_cost, *profile));
                    if better {
                        assert(g@ == pre_g.insert(nb.spec_key(), tentative));
                        if nbrs@[j].spec_key() == nb.spec_key() && pre_g.dom().contains(
                            nb.spec_key(),
                        ) {
                            assert(tentative < pre_g[nb.spec_key()]);
                        }
                    }
                } else {
                    assert(nbrs@[j] == nb);
                }
            }
            assert forall|k: (i64, bool)|
                #[trigger] g@.dom().contains(k) && !old(g)@.dom().contains(k) implies exists|
                j: int,
            |
                0 <= j < i + 1 && (#[trigger] nbrs@[j]).spec_key() == k by {
                if pre_g.dom().contains(k) {
                } else {
                    assert(nbrs@[i as int].spec_key() == k);
                }
            }
        }
        i = i + 1;
    }
}

/// Serving well-formed data is a property of the adjacency alone, so it
/// survives any store mutation that keeps the adjacency.
proof fn lemma_serves_wf_preserved<S: EdgeStore>(s1: S, s2: S)
    requires
        store_serves_wf(&s1),
        forall|n: i64| #[trigger] s2.spec_adjacency(n) == s1.spec_adjacency(n),
    ensures
        store_serves_wf(&s2),
{
    assert forall|n: i64, i: int| 0 <= i < s2.spec_adjacency(n).len() implies {
        let e = #[trigger] s2.spec_adjacency(n)[i];
        e.wf() && (e.source == n || e.target == n)
    } by {
        assert(s2.spec_adjacency(n) == s1.spec_adjacency(n));
    }
}

/// Every element of an oriented adjacency of a store serving well-formed
/// data is well-formed and departs from the node.
proof fn lemma_oriented_points_from_serves<S: EdgeStore>(store: &S, node: i64)
    requires
        store_serves_wf(store),
    ensures
        forall|j: int|
            0 <= j < spec_oriented(store.spec_adjacency(node), node).len() ==> {
                let ep = #[trigger] spec_oriented(store.spec_adjacency(node), node)[j];
                ep.wf() && ep.spec_origin_node_id() == node
            },
{
    let adj = store.spec_adjacency(node);
    assert forall|j: int| 0 <= j < spec_oriented(adj, node).len() implies {
        let ep = #[trigger] spec_oriented(adj, node)[j];
        ep.wf() && ep.spec_origin_node_id() == node
    } by {
        assert(adj[j].wf() && (adj[j].source == node || adj[j].target == node));
        assert(spec_oriented(adj, node)[j] == spec_away_from(adj[j], node));
    }
}

/// Same, phrased for a list already known to equal the oriented adjacency
/// of touching, well-formed edges.
proof fn lemma_oriented_points(adj: Seq<Edge>, node: i64)
    requires
        forall|i: int|
            0 <= i < adj.len() ==> (#[trigger] adj[i]).wf() && (adj[i].source == node
                || adj[i].target == node),
    ensures
        forall|j: int|
            0 <= j < spec_oriented(adj, node).len() ==> {
                let ep = #[trigger] spec_oriented(adj, node)[j];
                ep.wf() && ep.spec_origin_node_id() == node
            },
{
    assert forall|j: int| 0 <= j < spec_oriented(adj, node).len() implies {
        let ep = #[trigger] spec_oriented(adj, node)[j];
        ep.wf() && ep.spec_origin_node_id() == node
    } by {
        assert(spec_oriented(adj, node)[j] == spec_away_from(adj[j], node));
    }
}

} // verus!
