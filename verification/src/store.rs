//! The edge store: where neighbor lists come from.
//!
//! The engine is written against the `EdgeStore` trait so that a search can
//! run over any supplier of adjacency lists — the production store that
//! queries a database lives outside the verified library and implements the
//! same trait, while `InMemoryStore` here serves a fixed edge set, counts
//! its queries, and can simulate outages; tests substitute it to observe
//! invalidation behavior without shared global state.
//!
//! A store may fail any query (`StoreError`): the engine degrades the
//! affected node to "no neighbors" for that attempt, as an outage of the
//! real store would.

use crate::edge::Edge;
use crate::geom::{spec_dist_lb, valid_coord};
use crate::tags::{Access, Bicycle, Footway, Highway, Tags};
use vstd::prelude::*;

verus! {

/// A neighbor query failed; the store is (perhaps temporarily) unavailable.
#[derive(Clone, Copy, Debug, PartialEq, Eq, Structural)]
pub struct StoreError {}

/// A supplier of adjacency lists: for a node id, every edge touching that
/// node. The abstract adjacency is fixed per store value; a query may
/// mutate bookkeeping (a call counter) but never what is served.
pub trait EdgeStore: Sized {
    /// The adjacency this store serves for `node`: every edge touching it,
    /// in a fixed order. The default is the empty adjacency: a store
    /// implemented outside the verified world that leaves it in place
    /// promises nothing about what it serves.
    open spec fn spec_adjacency(&self, node: i64) -> Seq<Edge> {
        Seq::empty()
    }

    /// All edges touching `node_id`, or an error when the store is
    /// unavailable; either way the adjacency itself is unchanged.
    fn neighbors_of(&mut self, node_id: i64) -> (r: Result<Vec<Edge>, StoreError>)
        ensures
            forall|n: i64|
                #[trigger] final(self).spec_adjacency(n) == old(self).spec_adjacency(n),
            r matches Ok(v) ==> v@ == old(self).spec_adjacency(node_id),
    ;
}

/// A store serves well-formed data: every edge it hands out for a node is
/// itself well-formed and actually touches that node.
pub open spec fn store_serves_wf<S: EdgeStore>(s: &S) -> bool {
    forall|n: i64, i: int|
        0 <= i < s.spec_adjacency(n).len() ==> {
            let e = #[trigger] s.spec_adjacency(n)[i];
            &&& e.wf()
            &&& (e.source == n || e.target == n)
        }
}

/// An element of a filtered sequence is an element of the original.
proof fn lemma_filter_subset(s: Seq<Edge>, pred: spec_fn(Edge) -> bool, i: int)
    requires
        0 <= i < s.filter(pred).len(),
    ensures
        exists|j: int| 0 <= j < s.len() && s[j] == s.filter(pred)[i],
    decreases s.len(),
{
    reveal(Seq::filter);
    if s.len() != 0 {
        let rest = s.drop_last().filter(pred);
        if i < rest.len() {
            lemma_filter_subset(s.drop_last(), pred, i);
            let j = choose|j: int|
                0 <= j < s.drop_last().len() && s.drop_last()[j] == s.drop_last().filter(pred)[i];
            assert(s[j] == s.drop_last()[j]);
        } else {
            assert(s.filter(pred)[i] == s.last());
            assert(s[s.len() - 1] == s.last());
        }
    }
}

/// Touching a given node.
pub open spec fn spec_touches(e: Edge, node: i64) -> bool {
    e.source == node || e.target == node
}

/// An in-memory edge store over a fixed, well-formed edge set. It counts
/// the queries it answers, so a test can tell a cache hit from a fresh
/// query, and it can be switched into a failing state to exercise the
/// engine's degradation path.
pub struct InMemoryStore {
    edges: Vec<Edge>,
    query_count: u64,
    failing: bool,
}

impl InMemoryStore {
    /// Every held edge is well-formed.
    pub closed spec fn wf(&self) -> bool {
        forall|i: int| 0 <= i < self.edges@.len() ==> (#[trigger] self.edges@[i]).wf()
    }

    /// The edges the store was built over.
    pub closed spec fn spec_edges(&self) -> Seq<Edge> {
        self.edges@
    }

    /// How many neighbor queries were answered so far.
    pub closed spec fn spec_query_count(&self) -> u64 {
        self.query_count
    }

    /// A store over `edges`.
    pub fn new(edges: Vec<Edge>) -> (s: InMemoryStore)
        requires
            forall|i: int| 0 <= i < edges@.len() ==> (#[trigger] edges@[i]).wf(),
        ensures
            s.wf(),
            s.spec_edges() == edges@,
            s.spec_query_count() == 0,
            store_serves_wf(&s),
    {
        let s = InMemoryStore { edges, query_count: 0, failing: false };
        proof {
            s.lemma_serves_wf();
        }
        s
    }

    /// A well-formed in-memory store serves well-formed data.
    pub proof fn lemma_serves_wf(&self)
        requires
            self.wf(),
        ensures
            store_serves_wf(self),
    {
        assert forall|n: i64, i: int| 0 <= i < self.spec_adjacency(n).len() implies {
            let e = #[trigger] self.spec_adjacency(n)[i];
            e.wf() && (e.source == n || e.target == n)
        } by {
            let pred = |e: Edge| spec_touches(e, n);
            Seq::lemma_filter_pred(self.edges@, pred, i);
            lemma_filter_subset(self.edges@, pred, i);
        }
    }

    /// The query counter.
    pub fn query_count(&self) -> (c: u64)
        ensures
            c == self.spec_query_count(),
    {
        self.query_count
    }

    /// Switches the simulated outage on or off; what the store serves is
    /// unchanged.
    pub fn set_failing(&mut self, failing: bool)
        ensures
            old(self).wf() ==> final(self).wf(),
            final(self).spec_edges() == old(self).spec_edges(),
            final(self).spec_query_count() == old(self).spec_query_count(),
            forall|n: i64|
                #[trigger] final(self).spec_adjacency(n) == old(self).spec_adjacency(n),
    {
        self.failing = failing;
    }
}

impl EdgeStore for InMemoryStore {
    closed spec fn spec_adjacency(&self, node: i64) -> Seq<Edge> {
        self.edges@.filter(|e: Edge| spec_touches(e, node))
    }

    fn neighbors_of(&mut self, node_id: i64) -> (r: Result<Vec<Edge>, StoreError>) {
        if self.query_count < u64::MAX {
            self.query_count = self.query_count + 1;
        }
        if self.failing {
            return Err(StoreError {  });
        }
        let ghost pred = |e: Edge| spec_touches(e, node_id);
        let mut out: Vec<Edge> = Vec::new();
        let n = self.edges.len();
        let mut i: usize = 0;
        proof {
            reveal(Seq::filter);
            assert(self.edges@.subrange(0, 0) =~= Seq::<Edge>::empty());
            assert(Seq::<Edge>::empty().filter(pred) =~= Seq::<Edge>::empty());
        }
        while i < n
            invariant
                n == self.edges@.len(),
                0 <= i <= n,
                self.edges@ == old(self).edges@,
                self.query_count == final(self).query_count,
                self.failing == old(self).failing,
                pred == (|e: Edge| spec_touches(e, node_id)),
                out@ == self.edges@.subrange(0, i as int).filter(pred),
            decreases n - i,
        {
            let e = self.edges[i];
            proof {
                reveal(Seq::filter);
                let sub = self.edges@.subrange(0, i + 1);
                assert(sub.drop_last() =~= self.edges@.subrange(0, i as int));
                assert(sub.last() == self.edges@[i as int]);
            }
            if e.source == node_id || e.target == node_id {
                out.push(e);
            }
            i = i + 1;
        }
        proof {
            assert(self.edges@.subrange(0, n as int) =~= self.edges@);
        }
        Ok(out)
    }
}

/// How far from a query coordinate a routable node may lie: 1 km, in
/// millimeters.
pub const SEARCH_RADIUS: u64 = 1_000_000;

/// An edge a route query may start or end on: it has a road class, is not
/// a track, path, stair, or motorway, is a footway or pedestrian way only
/// under an explicit bicycle override, is not a sidewalk, not indoors, and
/// carries no access restriction beyond customers-only.
pub open spec fn spec_routable(e: Edge) -> bool {
    let t = e.tags;
    &&& t.highway is Some
    &&& t.highway != Some(Highway::Track)
    &&& t.highway != Some(Highway::Path)
    &&& t.highway != Some(Highway::Steps)
    &&& t.highway != Some(Highway::Motorway)
    &&& (t.highway == Some(Highway::Footway) ==> spec_bike_override(t))
    &&& (t.highway == Some(Highway::Pedestrian) ==> spec_bike_override(t))
    &&& t.footway != Some(Footway::Sidewalk)
    &&& !t.indoor
    &&& (t.access is None || t.access == Some(Access::Customers))
}

/// An explicit bicycle-access override.
pub open spec fn spec_bike_override(t: Tags) -> bool {
    ||| t.bicycle == Some(Bicycle::Yes)
    ||| t.bicycle == Some(Bicycle::Designated)
    ||| t.bicycle == Some(Bicycle::Dismount)
}

/// The node at one of an edge's two endpoints.
pub open spec fn spec_endpoint_node(e: Edge, target_side: bool) -> i64 {
    if target_side {
        e.target
    } else {
        e.source
    }
}

/// The distance from a query coordinate to one of an edge's two endpoints.
pub open spec fn spec_endpoint_dist(lng: int, lat: int, e: Edge, target_side: bool) -> int {
    if target_side {
        spec_dist_lb(lng, lat, e.lon2 as int, e.lat2 as int)
    } else {
        spec_dist_lb(lng, lat, e.lon1 as int, e.lat1 as int)
    }
}

fn routable(e: &Edge) -> (r: bool)
    ensures
        r == spec_routable(*e),
{
    let t = &e.tags;
    let hw_ok = match t.highway {
        None => false,
        Some(hw) => {
            !(hw == Highway::Track || hw == Highway::Path || hw == Highway::Steps || hw
                == Highway::Motorway) && (!(hw == Highway::Footway || hw == Highway::Pedestrian)
                || bike_override(t))
        },
    };
    let access_ok = match t.access {
        None => true,
        Some(a) => a == Access::Customers,
    };
    hw_ok && !matches!(t.footway, Some(Footway::Sidewalk)) && !t.indoor && access_ok
}

fn bike_override(t: &Tags) -> (r: bool)
    ensures
        r == spec_bike_override(*t),
{
    match t.bicycle {
        Some(b) => b == Bicycle::Yes || b == Bicycle::Designated || b == Bicycle::Dismount,
        None => false,
    }
}

/// The routable node closest to a query coordinate: over both endpoints
/// of every routable edge, the node of the nearest endpoint, restricted to
/// `SEARCH_RADIUS`. When no routable endpoint lies within the radius, the
/// offending coordinate is surfaced.
pub fn find_closest_node(edges: &Vec<Edge>, lng: i64, lat: i64) -> (r: Result<
    i64,
    crate::search::RouteError,
>)
    requires
        forall|i: int| 0 <= i < edges@.len() ==> (#[trigger] edges@[i]).wf(),
        valid_coord(lng as int, lat as int),
    ensures
        match r {
            Ok(node) => exists|i: int, s: bool|
                {
                    &&& 0 <= i < edges@.len()
                    &&& spec_routable(edges@[i])
                    &&& node == spec_endpoint_node(edges@[i], s)
                    &&& #[trigger] spec_endpoint_dist(lng as int, lat as int, edges@[i], s)
                        <= SEARCH_RADIUS
                    &&& forall|j: int, s2: bool|
                        0 <= j < edges@.len() && spec_routable(edges@[j]) ==> spec_endpoint_dist(
                            lng as int,
                            lat as int,
                            edges@[i],
                            s,
                        ) <= #[trigger] spec_endpoint_dist(lng as int, lat as int, edges@[j], s2)
                },
            Err(e) => {
                &&& e == (crate::search::RouteError::NoNodeNear { lng, lat })
                &&& forall|j: int, s2: bool|
                    0 <= j < edges@.len() && spec_routable(edges@[j]) ==> #[trigger]
                        spec_endpoint_dist(lng as int, lat as int, edges@[j], s2) > SEARCH_RADIUS
            },
        },
{
    let n = edges.len();
    let mut best_node: i64 = 0;
    let mut best_dist: u64 = 0;
    let mut found = false;
    let ghost mut best_idx: int = 0;
    let ghost mut best_side: bool = false;
    let mut i: usize = 0;
    while i < n
        invariant
            n == edges@.len(),
            0 <= i <= n,
            forall|k: int| 0 <= k < n ==> (#[trigger] edges@[k]).wf(),
            valid_coord(lng as int, lat as int),
            found ==> {
                &&& 0 <= best_idx < i
                &&& spec_routable(edges@[best_idx])
                &&& best_node == spec_endpoint_node(edges@[best_idx], best_side)
                &&& best_dist == spec_endpoint_dist(lng as int, lat as int, edges@[best_idx],
                best_side)
                &&& best_dist <= SEARCH_RADIUS
                &&& forall|j: int, s2: bool|
                    0 <= j < i && spec_routable(edges@[j]) ==> best_dist <= #[trigger]
                        spec_endpoint_dist(lng as int, lat as int, edges@[j], s2)
            },
            !found ==> forall|j: int, s2: bool|
                0 <= j < i && spec_routable(edges@[j]) ==> #[trigger] spec_endpoint_dist(
                    lng as int,
                    lat as int,
                    edges@[j],
                    s2,
                ) > SEARCH_RADIUS,
        decreases n - i,
    {
        let e = edges[i];
        if routable(&e) {
            let d_source = crate::geom::dist_lb(lng, lat, e.lon1, e.lat1);
            if d_source <= SEARCH_RADIUS && (!found || d_source < best_dist) {
                best_node = e.source;
                best_dist = d_source;
                found = true;
                proof {
                    best_idx = i as int;
                    best_side = false;
                }
            }
            let d_target = crate::geom::dist_lb(lng, lat, e.lon2, e.lat2);
            if d_target <= SEARCH_RADIUS && (!found || d_target < best_dist) {
                best_node = e.target;
                best_dist = d_target;
                found = true;
                proof {
                    best_idx = i as int;
                    best_side = true;
                }
            }
        }
        i = i + 1;
    }
    if found {
        Ok(best_node)
    } else {
        Err(crate::search::RouteError::NoNodeNear { lng, lat })
    }
}

/// A city's snow fact, as the maintenance flow hands it over: when a
/// city's state flips, the ways in that city change cost, and the caches
/// for their nodes must be invalidated.
#[derive(Clone, Debug, PartialEq, Eq)]
pub struct CitySnow {
    pub name: String,
    pub snow: bool,
}

impl CitySnow {
    /// A snow fact for `name`.
    pub fn new(name: String, snow: bool) -> (c: CitySnow)
        ensures
            c.name@ == name@,
            c.snow == snow,
    {
        CitySnow { name, snow }
    }
}

/// A node touched by an edge of one of the given ways.
pub open spec fn spec_affected(x: i64, edges: Seq<Edge>, way_ids: Seq<i64>) -> bool {
    exists|l: int|
        0 <= l < edges.len() && way_ids.contains((#[trigger] edges[l]).way_id) && (x
            == edges[l].source || x == edges[l].target)
}

/// The node ids affected by a mutation of the given ways: the source and
/// target of every edge belonging to one of them, and nothing else. The
/// result holds every affected node, so invalidating the result
/// invalidates the full set; and only affected nodes, so nothing else is
/// evicted.
pub fn nodes_of_ways(edges: &Vec<Edge>, way_ids: &Vec<i64>) -> (r: Vec<i64>)
    ensures
        forall|i: int|
            0 <= i < edges@.len() && way_ids@.contains(#[trigger] edges@[i].way_id) ==> r@.contains(
                edges@[i].source,
            ) && r@.contains(edges@[i].target),
        forall|j: int| 0 <= j < r@.len() ==> spec_affected(#[trigger] r@[j], edges@, way_ids@),
{
    let mut r: Vec<i64> = Vec::new();
    let n = edges.len();
    let mut i: usize = 0;
    while i < n
        invariant
            n == edges@.len(),
            0 <= i <= n,
            forall|j: int|
                0 <= j < i && way_ids@.contains(#[trigger] edges@[j].way_id) ==> r@.contains(
                    edges@[j].source,
                ) && r@.contains(edges@[j].target),
            forall|j: int|
                0 <= j < r@.len() ==> spec_affected(#[trigger] r@[j], edges@, way_ids@),
        decreases n - i,
    {
        let ghost prev = r@;
        let e = edges[i];
        let mut hit = false;
        let m = way_ids.len();
        let mut k: usize = 0;
        while k < m
            invariant
                m == way_ids@.len(),
                0 <= k <= m,
                hit ==> way_ids@.contains(e.way_id),
                !hit ==> forall|l: int| 0 <= l < k ==> way_ids@[l] != e.way_id,
            decreases m - k,
        {
            if way_ids[k] == e.way_id {
                hit = true;
            }
            k = k + 1;
        }
        if hit {
            r.push(e.source);
            r.push(e.target);
            proof {
                assert(r@[r@.len() - 2] == e.source);
                assert(r@[r@.len() - 1] == e.target);
                assert forall|x: i64| prev.contains(x) implies r@.contains(x) by {
                    let w = choose|w: int| 0 <= w < prev.len() && prev[w] == x;
                    assert(r@[w] == x);
                }
                assert forall|j: int|
                    0 <= j < r@.len() implies spec_affected(r@[j], edges@, way_ids@) by {
                    if j < prev.len() {
                        assert(r@[j] == prev[j]);
                    } else {
                        assert(0 <= i < edges@.len() && way_ids@.contains(
                            (#[trigger] edges@[i as int]).way_id,
                        ) && (r@[j] == edges@[i as int].source || r@[j] == edges@[
                            i as int].target));
                    }
                }
            }
        }
        i = i + 1;
    }
    r
}

} // verus!
