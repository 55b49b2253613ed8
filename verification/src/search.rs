//! Building blocks of the bidirectional search.
//!
//! The search keeps, per frontier, a best-known-cost map and a predecessor
//! map (`SearchMap`), and an open set ordered by estimated total cost
//! (`OpenSet`). Accumulated costs saturate at `u64::MAX`, the finite
//! stand-in for "unreached", so scores always remain comparable. The
//! heuristic `h` multiplies the distance bound of `crate::geom` by the
//! cheapest cost per millimeter any profile can produce — the rate floor,
//! where a maximal downhill discount meets the best infrastructure — and
//! is therefore an admissible lower bound; for very long queries it is
//! deliberately scaled up to bias the search toward faster convergence, at
//! the documented price of no-longer-guaranteed optimality there.

use crate::cost::{COST_FACTOR_LIMIT, COST_RATE_FLOOR};
use crate::edge::EdgePoint;
use crate::geom::{dist_lb, spec_dist_lb};
use vstd::arithmetic::div_mod::{lemma_div_is_ordered, lemma_div_nonincreasing,
    lemma_div_pos_is_pos, lemma_fundamental_div_mod, lemma_mod_bound};
use vstd::arithmetic::mul::{lemma_mul_inequality, lemma_mul_upper_bound};
use vstd::prelude::*;

verus! {

/// Why a search ended without a route being computed at all. An exhausted
/// or capped search is not an error: it returns an empty waypoint list.
#[derive(Clone, Copy, Debug, PartialEq, Eq, Structural)]
pub enum RouteError {
    /// The node has no edges here, or could not be fetched: there is
    /// nothing to route from or to.
    NodeNotFound(i64),
    /// No routable node lies within the search radius of this coordinate.
    NoNodeNear { lng: i64, lat: i64 },
    /// The progress consumer went away, and the search aborted rather than
    /// expand nodes for no observer.
    Cancelled,
}

/// A consumer of search-progress samples. `send_segment` hands over the two
/// endpoint coordinates of an expanded edge and reports whether the
/// consumer is still listening; `false` tells the search to abort promptly.
pub trait ProgressSink {
    /// Delivers one sampled segment; `false` means the consumer is gone.
    fn send_segment(&mut self, lng1: i64, lat1: i64, lng2: i64, lat2: i64) -> bool;
}

/// The absent sink: accepts everything. A search given this sink behaves
/// as a search with no observer.
pub struct NullSink {}

impl ProgressSink for NullSink {
    fn send_segment(&mut self, lng1: i64, lat1: i64, lng2: i64, lat2: i64) -> bool {
        true
    }
}

/// A sink for tests: records the delivered segments and disconnects after
/// a set allowance.
pub struct CountingSink {
    /// Segments delivered so far.
    pub segments: Vec<(i64, i64, i64, i64)>,
    /// How many deliveries are accepted before the sink reports itself
    /// disconnected.
    pub allow: u64,
}

impl ProgressSink for CountingSink {
    fn send_segment(&mut self, lng1: i64, lat1: i64, lng2: i64, lat2: i64) -> bool {
        if (self.segments.len() as u64) < self.allow {
            self.segments.push((lng1, lat1, lng2, lat2));
            true
        } else {
            false
        }
    }
}

/// The distance beyond which the heuristic is relaxed, in millimeters.
pub const RELAX_THRESHOLD: u64 = 100_000_000;

/// The relaxation multiplier for very long queries.
pub const RELAX_MULTIPLIER: u64 = 3;

/// The heuristic: the distance bound between the two traversals' arrival
/// points, times the least cost-per-millimeter rate any profile can
/// produce — the rate floor, in thousandths; scaled up beyond
/// `RELAX_THRESHOLD`.
pub open spec fn spec_h(from: EdgePoint, goal: EdgePoint) -> int {
    let d = spec_dist_lb(
        from.spec_lng() as int,
        from.spec_lat() as int,
        goal.spec_lng() as int,
        goal.spec_lat() as int,
    );
    let base = (d * COST_RATE_FLOOR) / 1000;
    if d > RELAX_THRESHOLD {
        RELAX_MULTIPLIER * base
    } else {
        base
    }
}

/// Computes `spec_h`.
pub fn h(from: &EdgePoint, goal: &EdgePoint) -> (est: u64)
    requires
        from.wf(),
        goal.wf(),
    ensures
        est == spec_h(*from, *goal),
{
    let (from_lng, from_lat) = match from.direction {
        crate::edge::SourceOrTarget::Source => (from.edge.lon1, from.edge.lat1),
        crate::edge::SourceOrTarget::Target => (from.edge.lon2, from.edge.lat2),
    };
    let (goal_lng, goal_lat) = match goal.direction {
        crate::edge::SourceOrTarget::Source => (goal.edge.lon1, goal.edge.lat1),
        crate::edge::SourceOrTarget::Target => (goal.edge.lon2, goal.edge.lat2),
    };
    let d = dist_lb(from_lng, from_lat, goal_lng, goal_lat);
    let base = (d * COST_RATE_FLOOR) / 1000;
    proof {
        lemma_div_nonincreasing((d * COST_RATE_FLOOR) as int, 1000);
        lemma_div_pos_is_pos((d * COST_RATE_FLOOR) as int, 1000);
    }
    if d > RELAX_THRESHOLD {
        RELAX_MULTIPLIER * base
    } else {
        base
    }
}

/// Addition that saturates at `u64::MAX`.
pub open spec fn spec_sat_add(a: int, b: int) -> int {
    if a + b > u64::MAX {
        u64::MAX as int
    } else {
        a + b
    }
}

/// Computes `spec_sat_add`.
pub fn sat_add(a: u64, b: u64) -> (c: u64)
    ensures
        c == spec_sat_add(a as int, b as int),
{
    if b > u64::MAX - a {
        u64::MAX
    } else {
        a + b
    }
}

/// No traversal costs more than this: the length bound times the factor
/// bound, in thousandths.
pub const TRAVERSAL_COST_LIMIT: u64 = 31_001_000_000_000_000;

/// What one traversal adds to a path's cost: its length times its factor
/// in whole units, rounded up, and at least 1 — every edge weight is
/// strictly positive, so best-known costs strictly increase along
/// predecessor chains, and rounding never drops below the rate the factor
/// promises.
pub open spec fn spec_traversal_cost(ep: EdgePoint, factor: int) -> int {
    let w = (ep.edge.length * factor + 999) / 1000;
    if w < 1 {
        1
    } else {
        w
    }
}

/// Computes `spec_traversal_cost`. In thousandths, the result is no less
/// than the edge's length at the given factor.
pub fn traversal_cost(ep: &EdgePoint, factor: u64) -> (w: u64)
    requires
        ep.wf(),
        COST_RATE_FLOOR <= factor <= COST_FACTOR_LIMIT,
    ensures
        w == spec_traversal_cost(*ep, factor as int),
        1 <= w <= TRAVERSAL_COST_LIMIT,
        1000 * w >= ep.edge.length * factor,
{
    proof {
        lemma_mul_upper_bound(
            ep.edge.length as int,
            crate::edge::LENGTH_LIMIT as int,
            factor as int,
            COST_FACTOR_LIMIT as int,
        );
        assert(crate::edge::LENGTH_LIMIT as int * COST_FACTOR_LIMIT as int
            == 31_001_000_000_000_000_000) by (nonlinear_arith);
    }
    let prod: u128 = (ep.edge.length as u128) * (factor as u128);
    let q: u128 = (prod + 999) / 1000;
    proof {
        let len = ep.edge.length as int;
        lemma_div_is_ordered(
            len * factor + 999,
            crate::edge::LENGTH_LIMIT as int * COST_FACTOR_LIMIT as int + 999,
            1000,
        );
        assert((31_001_000_000_000_000_000 + 999) / 1000 == 31_001_000_000_000_000);
        lemma_fundamental_div_mod(len * factor + 999, 1000);
        lemma_mod_bound(len * factor + 999, 1000);
        lemma_mul_inequality(0, factor as int, len);
        vstd::arithmetic::mul::lemma_mul_is_commutative(len, factor as int);
        lemma_div_pos_is_pos(len * factor + 999, 1000);
    }
    if q < 1 {
        1
    } else {
        q as u64
    }
}

/// A map from search-state identity — the (edge id, toward-source) pair —
/// to a value: new bindings are appended and a lookup takes the newest, so
/// the view is the insert-ordered map of the entries.
pub struct SearchMap<V> {
    entries: Vec<((i64, bool), V)>,
}

/// The map an entry sequence denotes: later entries shadow earlier ones.
pub open spec fn spec_assoc_map<V>(s: Seq<((i64, bool), V)>) -> Map<(i64, bool), V>
    decreases s.len(),
{
    if s.len() == 0 {
        Map::empty()
    } else {
        spec_assoc_map(s.drop_last()).insert(s.last().0, s.last().1)
    }
}

impl<V: Copy> SearchMap<V> {
    /// The map held.
    pub closed spec fn view(&self) -> Map<(i64, bool), V> {
        spec_assoc_map(self.entries@)
    }

    /// The empty map.
    pub fn new() -> (m: SearchMap<V>)
        ensures
            m@ == Map::<(i64, bool), V>::empty(),
    {
        SearchMap { entries: Vec::new() }
    }

    /// The newest binding of `k`, if any.
    pub fn get(&self, k: (i64, bool)) -> (r: Option<V>)
        ensures
            match r {
                Some(v) => self@.dom().contains(k) && self@[k] == v,
                None => !self@.dom().contains(k),
            },
    {
        let mut i: usize = self.entries.len();
        proof {
            assert(self.entries@.subrange(0, i as int) =~= self.entries@);
        }
        while i > 0
            invariant
                i <= self.entries@.len(),
                spec_assoc_map(self.entries@).contains_key(k) == spec_assoc_map(
                    self.entries@.subrange(0, i as int),
                ).contains_key(k),
                spec_assoc_map(self.entries@).contains_key(k) ==> spec_assoc_map(self.entries@)[k]
                    == spec_assoc_map(self.entries@.subrange(0, i as int))[k],
            decreases i,
        {
            i = i - 1;
            let e = &self.entries[i];
            proof {
                let sub = self.entries@.subrange(0, i + 1);
                assert(sub.drop_last() =~= self.entries@.subrange(0, i as int));
                assert(sub.last() == self.entries@[i as int]);
            }
            if e.0.0 == k.0 && e.0.1 == k.1 {
                return Some(e.1);
            }
        }
        proof {
            assert(self.entries@.subrange(0, 0) =~= Seq::<((i64, bool), V)>::empty());
        }
        None
    }

    /// Binds `k` to `v`, shadowing any earlier binding.
    pub fn set(&mut self, k: (i64, bool), v: V)
        ensures
            final(self)@ == old(self)@.insert(k, v),
    {
        let ghost pre = self.entries@;
        self.entries.push((k, v));
        proof {
            assert(self.entries@.drop_last() =~= pre);
            assert(self.entries@.last() == ((k, v)));
        }
    }
}

/// The standing facts of one frontier. `g` is the best-known-cost map,
/// `pred` the predecessor map, `seed` the state the frontier grew from:
/// the seed has cost 0 and no predecessor; every other known state has a
/// predecessor of strictly smaller best-known cost whose own predecessor
/// chain also leads to the seed; and no best-known cost reaches the
/// saturation value. Strictly decreasing costs along predecessor chains
/// are what make path reconstruction terminate.
pub open spec fn frontier_inv(
    g: Map<(i64, bool), u64>,
    pred: Map<(i64, bool), EdgePoint>,
    seed: EdgePoint,
) -> bool {
    &&& g.dom().contains(seed.spec_key())
    &&& g[seed.spec_key()] == 0
    &&& !pred.dom().contains(seed.spec_key())
    &&& forall|k: (i64, bool)|
        #[trigger] pred.dom().contains(k) ==> {
            let p = pred[k];
            &&& g.dom().contains(k)
            &&& p.wf()
            &&& g.dom().contains(p.spec_key())
            &&& g[p.spec_key()] < g[k]
            &&& (p.spec_key() == seed.spec_key() || pred.dom().contains(p.spec_key()))
        }
    &&& forall|k: (i64, bool)|
        #[trigger] g.dom().contains(k) ==> k == seed.spec_key() || pred.dom().contains(k)
    &&& forall|k: (i64, bool)| #[trigger] g.dom().contains(k) ==> g[k] < u64::MAX
}

/// Every open entry is a well-formed state with a best-known cost.
pub open spec fn open_inv(open: Seq<(u64, EdgePoint)>, g: Map<(i64, bool), u64>) -> bool {
    forall|j: int|
        0 <= j < open.len() ==> (#[trigger] open[j]).1.wf() && g.dom().contains(
            open[j].1.spec_key(),
        )
}

/// Recording a strictly improved cost `t` for `nb`, reached from `cur`,
/// keeps the frontier's facts standing.
pub proof fn lemma_frontier_update(
    g: Map<(i64, bool), u64>,
    pred: Map<(i64, bool), EdgePoint>,
    seed: EdgePoint,
    cur: EdgePoint,
    nb: EdgePoint,
    t: u64,
)
    requires
        frontier_inv(g, pred, seed),
        g.dom().contains(cur.spec_key()),
        cur.wf(),
        t < u64::MAX,
        g[cur.spec_key()] < t,
        g.dom().contains(nb.spec_key()) ==> t < g[nb.spec_key()],
    ensures
        frontier_inv(g.insert(nb.spec_key(), t), pred.insert(nb.spec_key(), cur), seed),
        nb.spec_key() != cur.spec_key(),
        nb.spec_key() != seed.spec_key(),
{
    let nk = nb.spec_key();
    let g2 = g.insert(nk, t);
    let p2 = pred.insert(nk, cur);
    assert(nk != cur.spec_key());
    assert(nk != seed.spec_key());
    assert forall|k: (i64, bool)| #[trigger] p2.dom().contains(k) implies {
        let p = p2[k];
        &&& g2.dom().contains(k)
        &&& p.wf()
        &&& g2.dom().contains(p.spec_key())
        &&& g2[p.spec_key()] < g2[k]
        &&& (p.spec_key() == seed.spec_key() || p2.dom().contains(p.spec_key()))
    } by {
        if k == nk {
            assert(g2[cur.spec_key()] == g[cur.spec_key()]);
        } else {
            assert(pred.dom().contains(k));
            let p = pred[k];
            if p.spec_key() == nk {
                assert(g[nk] < g[k]);
            }
        }
    }
}

/// The open set of one frontier: entries of estimated total cost and
/// search state, popped in ascending cost order, ties broken by earliest
/// insertion.
pub struct OpenSet {
    entries: Vec<(u64, EdgePoint)>,
}

impl OpenSet {
    /// The entries, in insertion order.
    pub closed spec fn view(&self) -> Seq<(u64, EdgePoint)> {
        self.entries@
    }

    /// The empty open set.
    pub fn new() -> (s: OpenSet)
        ensures
            s@ == Seq::<(u64, EdgePoint)>::empty(),
    {
        OpenSet { entries: Vec::new() }
    }

    /// Whether the set is empty.
    pub fn is_empty(&self) -> (r: bool)
        ensures
            r == (self@.len() == 0),
    {
        self.entries.len() == 0
    }

    /// Adds an entry.
    pub fn push(&mut self, priority: u64, ep: EdgePoint)
        ensures
            final(self)@ == old(self)@.push((priority, ep)),
    {
        self.entries.push((priority, ep));
    }

    /// The least priority present, if any.
    pub fn peek_min(&self) -> (r: Option<u64>)
        ensures
            match r {
                Some(m) => self@.len() > 0 && forall|j: int|
                    0 <= j < self@.len() ==> m <= (#[trigger] self@[j]).0,
                None => self@.len() == 0,
            },
    {
        if self.entries.len() == 0 {
            return None;
        }
        let n = self.entries.len();
        let mut best: u64 = self.entries[0].0;
        let mut i: usize = 1;
        while i < n
            invariant
                n == self@.len(),
                1 <= i <= n,
                forall|j: int| 0 <= j < i ==> best <= (#[trigger] self@[j]).0,
            decreases n - i,
        {
            if self.entries[i].0 < best {
                best = self.entries[i].0;
            }
            i = i + 1;
        }
        Some(best)
    }

    /// Removes and returns an entry of least priority — the
    /// earliest-inserted one among those of least priority, so tie order is
    /// deterministic. Everything left was present before.
    pub fn pop_min(&mut self) -> (r: Option<(u64, EdgePoint)>)
        ensures
            match r {
                Some(p) => {
                    &&& old(self)@.contains(p)
                    &&& final(self)@.len() == old(self)@.len() - 1
                    &&& forall|j: int|
                        0 <= j < final(self)@.len() ==> old(self)@.contains(
                            #[trigger] final(self)@[j],
                        )
                    &&& forall|j: int|
                        0 <= j < old(self)@.len() ==> p.0 <= (#[trigger] old(self)@[j]).0
                },
                None => old(self)@.len() == 0 && final(self)@ == old(self)@,
            },
    {
        if self.entries.len() == 0 {
            return None;
        }
        let n = self.entries.len();
        let mut best_idx: usize = 0;
        let mut i: usize = 1;
        while i < n
            invariant
                n == self@.len(),
                1 <= i <= n,
                0 <= best_idx < i,
                forall|j: int| 0 <= j < i ==> self@[best_idx as int].0 <= (#[trigger] self@[j]).0,
            decreases n - i,
        {
            if self.entries[i].0 < self.entries[best_idx].0 {
                best_idx = i;
            }
            i = i + 1;
        }
        let ghost pre = self.entries@;
        let p = self.entries.remove(best_idx);
        proof {
            assert(pre.contains(p)) by {
                assert(pre[best_idx as int] == p);
            }
            assert forall|j: int| 0 <= j < self.entries@.len() implies pre.contains(
                #[trigger] self.entries@[j],
            ) by {
                if j < best_idx {
                    assert(self.entries@[j] == pre[j]);
                } else {
                    assert(self.entries@[j] == pre[j + 1]);
                }
            }
        }
        Some(p)
    }
}

} // verus!
