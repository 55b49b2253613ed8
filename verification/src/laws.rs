//! Laws of the default cost model and of the heuristic.
//!
//! These proof functions state, over the specification functions that the
//! executable contracts use, what holds of every input: how a path's cost
//! under the default profile responds to consensus-score changes, that
//! the heuristic is an admissible lower bound on any path's cost, and how
//! a bicycle-banned edge's cost floor compares to an alternative path's
//! ceiling.

use crate::cost::{spec_moyen_base, spec_moyen_cost, COST_RATE_FLOOR, FACTOR_EXCLUDED,
    FACTOR_NEUTRAL};
use crate::edge::{Edge, EdgePoint};
use crate::elevation::{lemma_slope_cost_bounds, spec_edge_slope_cost, SLOPE_COST_LIMIT,
    SLOPE_DISCOUNT_LIMIT};
use crate::geom::{lemma_dist_lb_nonneg, lemma_dist_lb_symmetric, lemma_dist_lb_triangle,
    spec_dist_lb};
use crate::score::ConsensusScore;
use crate::search::{spec_h, spec_traversal_cost, RELAX_THRESHOLD};
use crate::tags::Bicycle;
use vstd::arithmetic::div_mod::{lemma_div_is_ordered, lemma_div_is_ordered_by_denominator,
    lemma_div_multiples_vanish, lemma_div_plus_one, lemma_div_pos_is_pos,
    lemma_fundamental_div_mod, lemma_mod_bound};
use vstd::arithmetic::mul::{lemma_mul_inequality, lemma_mul_is_commutative,
    lemma_mul_is_distributive_add_other_way};
use vstd::prelude::*;

verus! {

/// The cost of a path under the default profile: the sum of its
/// traversals' costs.
pub open spec fn spec_path_cost(path: Seq<EdgePoint>) -> int
    decreases path.len(),
{
    if path.len() == 0 {
        0
    } else {
        spec_traversal_cost(path[0], spec_moyen_cost(path[0])) + spec_path_cost(path.drop_first())
    }
}

/// The length of a path, in millimeters.
pub open spec fn spec_path_length(path: Seq<EdgePoint>) -> int
    decreases path.len(),
{
    if path.len() == 0 {
        0
    } else {
        path[0].edge.length + spec_path_length(path.drop_first())
    }
}

/// The effective consensus score lies in 1..=1000 for a well-formed score.
proof fn lemma_effective_bounds(s: ConsensusScore)
    requires
        s.wf(),
    ensures
        1 <= s.spec_effective() <= 1000,
{
}

/// The slope adjustment of any traversal lies between the downhill floor
/// and the uphill bound.
proof fn lemma_edge_slope_bounds(ep: EdgePoint)
    ensures
        -(SLOPE_DISCOUNT_LIMIT as int) <= spec_edge_slope_cost(ep) <= SLOPE_COST_LIMIT,
{
    match (ep.edge.elevation_start, ep.edge.elevation_end) {
        (Some(es), Some(ee)) => {
            let from: i64 = if ep.spec_toward_source() {
                ee
            } else {
                es
            };
            let to: i64 = if ep.spec_toward_source() {
                es
            } else {
                ee
            };
            lemma_slope_cost_bounds(
                crate::elevation::spec_slope_percentage(
                    from as int,
                    to as int,
                    ep.edge.length as int / 1000,
                ),
            );
        },
        _ => {},
    }
}

/// The default profile's factor never falls more than the downhill
/// discount below its base, and never below the rate floor: road work
/// multiplies by at least one and dividing by an effective score of at
/// most 1.0 only raises the cost.
pub proof fn lemma_moyen_cost_min(ep: EdgePoint)
    requires
        ep.wf(),
    ensures
        spec_moyen_cost(ep) >= spec_moyen_base(ep) - SLOPE_DISCOUNT_LIMIT,
        spec_moyen_cost(ep) >= COST_RATE_FLOOR,
{
    let base = spec_moyen_base(ep);
    assert(base >= FACTOR_NEUTRAL);
    let worked = if ep.edge.road_work {
        base * 3
    } else {
        base
    };
    lemma_edge_slope_bounds(ep);
    let adjusted = worked + spec_edge_slope_cost(ep);
    let eff = ep.edge.score.spec_effective();
    lemma_effective_bounds(ep.edge.score);
    lemma_div_is_ordered_by_denominator(adjusted * 1000, eff, 1000);
    lemma_mul_is_commutative(adjusted, 1000);
    lemma_div_multiples_vanish(adjusted, 1000);
}

/// In thousandths, a traversal costs at least its length at its factor:
/// the rounding is upward.
pub proof fn lemma_traversal_rate(ep: EdgePoint, c: int)
    requires
        c >= 0,
    ensures
        1000 * spec_traversal_cost(ep, c) >= ep.edge.length * c,
{
    let len = ep.edge.length as int;
    lemma_mul_inequality(0, c, len);
    lemma_mul_is_commutative(len, c);
    lemma_fundamental_div_mod(len * c + 999, 1000);
    lemma_mod_bound(len * c + 999, 1000);
}

/// Every traversal costs at least 1: edge weights are strictly positive.
pub proof fn lemma_traversal_positive(ep: EdgePoint, c: int)
    ensures
        spec_traversal_cost(ep, c) >= 1,
{
}

/// A traversal's cost never decreases when its factor grows.
pub proof fn lemma_traversal_monotone(ep1: EdgePoint, ep2: EdgePoint, c1: int, c2: int)
    requires
        ep1.edge.length == ep2.edge.length,
        0 <= c1 <= c2,
    ensures
        spec_traversal_cost(ep1, c1) <= spec_traversal_cost(ep2, c2),
{
    let len = ep1.edge.length as int;
    lemma_mul_inequality(c1, c2, len);
    lemma_mul_is_commutative(len, c1);
    lemma_mul_is_commutative(len, c2);
    lemma_div_is_ordered(len * c1 + 999, len * c2 + 999, 1000);
}

/// Two traversals that agree on everything but the consensus score.
pub open spec fn spec_same_but_score(a: EdgePoint, b: EdgePoint) -> bool {
    &&& b.edge == (Edge { score: b.edge.score, ..a.edge })
    &&& b.direction == a.direction
}

/// Score monotonicity at one edge: lowering the effective consensus score
/// of a traversal never lowers its factor under the default profile.
pub proof fn lemma_score_monotonic(a: EdgePoint, b: EdgePoint)
    requires
        a.wf(),
        b.wf(),
        spec_same_but_score(a, b),
        b.edge.score.spec_effective() <= a.edge.score.spec_effective(),
    ensures
        spec_moyen_cost(b) >= spec_moyen_cost(a),
{
    assert(spec_moyen_base(b) == spec_moyen_base(a));
    assert(spec_edge_slope_cost(b) == spec_edge_slope_cost(a));
    let base = spec_moyen_base(a);
    let worked = if a.edge.road_work {
        base * 3
    } else {
        base
    };
    lemma_edge_slope_bounds(a);
    let adjusted = worked + spec_edge_slope_cost(a);
    assert(base >= FACTOR_NEUTRAL);
    lemma_effective_bounds(a.edge.score);
    lemma_effective_bounds(b.edge.score);
    lemma_div_is_ordered_by_denominator(
        adjusted * 1000,
        b.edge.score.spec_effective(),
        a.edge.score.spec_effective(),
    );
}

/// Score monotonicity along a whole path: lowering effective scores
/// edge by edge never lowers the path's total cost under the default
/// profile.
pub proof fn lemma_path_score_monotonic(p1: Seq<EdgePoint>, p2: Seq<EdgePoint>)
    requires
        p1.len() == p2.len(),
        forall|i: int|
            0 <= i < p1.len() ==> {
                &&& (#[trigger] p1[i]).wf()
                &&& (#[trigger] p2[i]).wf()
                &&& spec_same_but_score(p1[i], p2[i])
                &&& p2[i].edge.score.spec_effective() <= p1[i].edge.score.spec_effective()
            },
    ensures
        spec_path_cost(p2) >= spec_path_cost(p1),
    decreases p1.len(),
{
    if p1.len() > 0 {
        lemma_score_monotonic(p1[0], p2[0]);
        lemma_moyen_cost_min(p1[0]);
        lemma_traversal_monotone(p1[0], p2[0], spec_moyen_cost(p1[0]), spec_moyen_cost(p2[0]));
        assert forall|i: int| 0 <= i < p1.drop_first().len() implies {
            &&& (#[trigger] p1.drop_first()[i]).wf()
            &&& (#[trigger] p2.drop_first()[i]).wf()
            &&& spec_same_but_score(p1.drop_first()[i], p2.drop_first()[i])
            &&& p2.drop_first()[i].edge.score.spec_effective()
                <= p1.drop_first()[i].edge.score.spec_effective()
        } by {
            assert(p1.drop_first()[i] == p1[i + 1]);
            assert(p2.drop_first()[i] == p2[i + 1]);
        }
        lemma_path_score_monotonic(p1.drop_first(), p2.drop_first());
    }
}

/// A sequence of traversals runs, coordinate by coordinate, from a start
/// point to a goal point: each traversal departs where the previous one
/// arrived.
pub open spec fn spec_chain_coords(
    path: Seq<EdgePoint>,
    slng: int,
    slat: int,
    glng: int,
    glat: int,
) -> bool {
    &&& forall|i: int| 0 <= i < path.len() ==> (#[trigger] path[i]).wf()
    &&& (path.len() == 0 ==> slng == glng && slat == glat)
    &&& (path.len() > 0 ==> path[0].spec_origin_lng() == slng && path[0].spec_origin_lat() == slat
        && path[path.len() - 1].spec_lng() == glng && path[path.len() - 1].spec_lat() == glat)
    &&& forall|i: int|
        0 <= i < path.len() - 1 ==> (#[trigger] path[i]).spec_lng() == path[i + 1].spec_origin_lng()
            && path[i].spec_lat() == path[i + 1].spec_origin_lat()
}

/// Any chained path costs, in thousandths, at least the rate floor times
/// the distance bound between its two endpoints: each traversal costs at
/// least its length at its factor, each factor is at least the floor, each
/// length is at least the distance between its endpoints, and the distance
/// bound obeys the triangle inequality.
pub proof fn lemma_path_cost_lower_bound(
    path: Seq<EdgePoint>,
    slng: int,
    slat: int,
    glng: int,
    glat: int,
)
    requires
        spec_chain_coords(path, slng, slat, glng, glat),
    ensures
        1000 * spec_path_cost(path) >= COST_RATE_FLOOR * spec_dist_lb(slng, slat, glng, glat),
    decreases path.len(),
{
    if path.len() == 0 {
        lemma_dist_lb_nonneg(slng, slat, glng, glat);
    } else {
        let e = path[0];
        let alng = e.spec_lng() as int;
        let alat = e.spec_lat() as int;
        lemma_moyen_cost_min(e);
        lemma_traversal_rate(e, spec_moyen_cost(e));
        assert(e.edge.length * spec_moyen_cost(e) >= e.edge.length * COST_RATE_FLOOR) by {
            lemma_mul_inequality(COST_RATE_FLOOR as int, spec_moyen_cost(e), e.edge.length as int);
            lemma_mul_is_commutative(e.edge.length as int, spec_moyen_cost(e));
            lemma_mul_is_commutative(e.edge.length as int, COST_RATE_FLOOR as int);
        }
        lemma_dist_lb_symmetric(e.edge.lon1 as int, e.edge.lat1 as int, e.edge.lon2 as int,
            e.edge.lat2 as int);
        assert(spec_dist_lb(slng, slat, alng, alat) <= e.edge.length);
        lemma_dist_lb_triangle(slng, slat, alng, alat, glng, glat);
        let rest = path.drop_first();
        assert forall|i: int| 0 <= i < rest.len() implies (#[trigger] rest[i]).wf() by {
            assert(rest[i] == path[i + 1]);
        }
        assert forall|i: int|
            0 <= i < rest.len() - 1 implies (#[trigger] rest[i]).spec_lng() == rest[i
            + 1].spec_origin_lng() && rest[i].spec_lat() == rest[i + 1].spec_origin_lat() by {
            assert(rest[i] == path[i + 1]);
            assert(rest[i + 1] == path[i + 2]);
        }
        if rest.len() > 0 {
            assert(rest[0] == path[1]);
            assert(rest[rest.len() - 1] == path[path.len() - 1]);
        }
        lemma_path_cost_lower_bound(rest, alng, alat, glng, glat);
    }
}

/// Admissibility of the heuristic: below the relaxation threshold, the
/// heuristic between two search states never exceeds the cost of any
/// chained path between their arrival points. Beyond the threshold the
/// heuristic is deliberately scaled up and this bound is forfeited.
pub proof fn lemma_heuristic_admissible(from: EdgePoint, goal: EdgePoint, path: Seq<EdgePoint>)
    requires
        spec_chain_coords(
            path,
            from.spec_lng() as int,
            from.spec_lat() as int,
            goal.spec_lng() as int,
            goal.spec_lat() as int,
        ),
        spec_dist_lb(
            from.spec_lng() as int,
            from.spec_lat() as int,
            goal.spec_lng() as int,
            goal.spec_lat() as int,
        ) <= RELAX_THRESHOLD,
    ensures
        spec_h(from, goal) <= spec_path_cost(path),
{
    let d = spec_dist_lb(
        from.spec_lng() as int,
        from.spec_lat() as int,
        goal.spec_lng() as int,
        goal.spec_lat() as int,
    );
    lemma_path_cost_lower_bound(
        path,
        from.spec_lng() as int,
        from.spec_lat() as int,
        goal.spec_lng() as int,
        goal.spec_lat() as int,
    );
    lemma_fundamental_div_mod(d * COST_RATE_FLOOR, 1000);
    lemma_mod_bound(d * COST_RATE_FLOOR, 1000);
    lemma_mul_is_commutative(d, COST_RATE_FLOOR as int);
}

/// Floor division distributes over addition with a loss, never a gain.
proof fn lemma_div_sum_lower(a: int, b: int, d: int)
    requires
        a >= 0,
        b >= 0,
        d > 0,
    ensures
        a / d + b / d <= (a + b) / d,
{
    lemma_fundamental_div_mod(a, d);
    lemma_fundamental_div_mod(b, d);
    lemma_mod_bound(a, d);
    lemma_mod_bound(b, d);
    lemma_div_pos_is_pos(a, d);
    lemma_div_pos_is_pos(b, d);
    let q = a / d + b / d;
    vstd::arithmetic::mul::lemma_mul_is_distributive_add(d, a / d, b / d);
    assert(d * q == d * (a / d) + d * (b / d));
    assert(a + b >= d * q);
    lemma_div_multiples_vanish(q, d);
    lemma_mul_is_commutative(d, q);
    lemma_div_is_ordered(d * q, a + b, d);
}

/// A path that traverses a bicycle-banned edge — one not already caught
/// by a oneway violation or the snow gate — costs, in thousandths, at
/// least that edge's length at the exclusion factor less the downhill
/// discount.
pub proof fn lemma_banned_edge_floor(path: Seq<EdgePoint>, i: int)
    requires
        forall|j: int| 0 <= j < path.len() ==> (#[trigger] path[j]).wf(),
        0 <= i < path.len(),
        path[i].edge.tags.bicycle == Some(Bicycle::No),
        !crate::cost::spec_oneway_violated(path[i]),
        !crate::cost::spec_winter_closed(path[i]),
    ensures
        1000 * spec_path_cost(path) >= path[i].edge.length * (FACTOR_EXCLUDED
            - SLOPE_DISCOUNT_LIMIT),
    decreases path.len(),
{
    if i == 0 {
        let e = path[0];
        assert(spec_moyen_base(e) == FACTOR_EXCLUDED);
        lemma_moyen_cost_min(e);
        lemma_traversal_rate(e, spec_moyen_cost(e));
        assert(e.edge.length * spec_moyen_cost(e) >= e.edge.length * (FACTOR_EXCLUDED
            - SLOPE_DISCOUNT_LIMIT) as int) by {
            lemma_mul_inequality(
                (FACTOR_EXCLUDED - SLOPE_DISCOUNT_LIMIT) as int,
                spec_moyen_cost(e),
                e.edge.length as int,
            );
            lemma_mul_is_commutative(e.edge.length as int, spec_moyen_cost(e));
            lemma_mul_is_commutative(
                e.edge.length as int,
                (FACTOR_EXCLUDED - SLOPE_DISCOUNT_LIMIT) as int,
            );
        }
        lemma_path_cost_nonneg(path.drop_first());
    } else {
        lemma_traversal_positive(path[0], spec_moyen_cost(path[0]));
        assert forall|j: int|
            0 <= j < path.drop_first().len() implies (#[trigger] path.drop_first()[j]).wf() by {
            assert(path.drop_first()[j] == path[j + 1]);
        }
        assert(path.drop_first()[i - 1] == path[i]);
        lemma_banned_edge_floor(path.drop_first(), i - 1);
    }
}

/// Path costs are never negative.
proof fn lemma_path_cost_nonneg(path: Seq<EdgePoint>)
    ensures
        spec_path_cost(path) >= 0,
    decreases path.len(),
{
    if path.len() > 0 {
        lemma_traversal_positive(path[0], spec_moyen_cost(path[0]));
        lemma_path_cost_nonneg(path.drop_first());
    }
}

/// A path whose traversals all stay under a factor ceiling costs at most
/// its length at that ceiling, plus one unit per traversal for the
/// rounding.
pub proof fn lemma_path_cost_upper(path: Seq<EdgePoint>, c: int)
    requires
        forall|j: int| 0 <= j < path.len() ==> (#[trigger] path[j]).wf(),
        forall|j: int| 0 <= j < path.len() ==> spec_moyen_cost(#[trigger] path[j]) <= c,
        c >= FACTOR_NEUTRAL,
    ensures
        spec_path_cost(path) <= (spec_path_length(path) * c) / 1000 + path.len(),
    decreases path.len(),
{
    if path.len() > 0 {
        let e = path[0];
        let len0 = e.edge.length as int;
        let rest = path.drop_first();
        lemma_moyen_cost_min(e);
        lemma_traversal_monotone(e, e, spec_moyen_cost(e), c);
        assert(spec_traversal_cost(e, c) <= (len0 * c) / 1000 + 1) by {
            lemma_mul_inequality(0, c, len0);
            lemma_mul_is_commutative(len0, c);
            lemma_div_pos_is_pos(len0 * c, 1000);
            lemma_div_is_ordered(len0 * c + 999, len0 * c + 1000, 1000);
            lemma_div_plus_one(len0 * c, 1000);
        }
        assert forall|j: int| 0 <= j < rest.len() implies (#[trigger] rest[j]).wf()
            && spec_moyen_cost(rest[j]) <= c by {
            assert(rest[j] == path[j + 1]);
        }
        lemma_path_cost_upper(rest, c);
        lemma_path_length_nonneg(rest);
        lemma_mul_inequality(0, spec_path_length(rest), c);
        lemma_mul_is_commutative(spec_path_length(rest), c);
        lemma_div_sum_lower(len0 * c, spec_path_length(rest) * c, 1000);
        lemma_mul_is_distributive_add_other_way(c, len0, spec_path_length(rest));
        lemma_mul_is_commutative(c, len0);
        lemma_mul_is_commutative(c, spec_path_length(rest));
        lemma_mul_is_commutative(c, spec_path_length(path));
    }
}

/// Path lengths are never negative.
proof fn lemma_path_length_nonneg(path: Seq<EdgePoint>)
    ensures
        spec_path_length(path) >= 0,
    decreases path.len(),
{
    if path.len() > 0 {
        lemma_path_length_nonneg(path.drop_first());
    }
}

/// Under the default profile, a path over a bicycle-banned edge loses to
/// any alternative whose ceiling stays below the banned edge's floor:
/// the exclusion factor is finite, so the comparison asks that the
/// alternative's length at its factor ceiling — allowing one unit per
/// traversal for rounding — stays under the banned edge's length at the
/// exclusion factor; within that bound, even a substantially longer
/// alternative is always the cheaper path.
pub proof fn lemma_banned_edge_loses(bad: Seq<EdgePoint>, i: int, alt: Seq<EdgePoint>, c: int)
    requires
        forall|j: int| 0 <= j < bad.len() ==> (#[trigger] bad[j]).wf(),
        0 <= i < bad.len(),
        bad[i].edge.tags.bicycle == Some(Bicycle::No),
        !crate::cost::spec_oneway_violated(bad[i]),
        !crate::cost::spec_winter_closed(bad[i]),
        forall|j: int| 0 <= j < alt.len() ==> (#[trigger] alt[j]).wf(),
        forall|j: int| 0 <= j < alt.len() ==> spec_moyen_cost(#[trigger] alt[j]) <= c,
        c >= FACTOR_NEUTRAL,
        (spec_path_length(alt) * c) / 1000 + alt.len() < (bad[i].edge.length * (FACTOR_EXCLUDED
            - SLOPE_DISCOUNT_LIMIT)) / 1000,
    ensures
        spec_path_cost(alt) < spec_path_cost(bad),
{
    lemma_banned_edge_floor(bad, i);
    lemma_path_cost_upper(alt, c);
    let floor = bad[i].edge.length * (FACTOR_EXCLUDED - SLOPE_DISCOUNT_LIMIT) as int;
    lemma_div_is_ordered(floor, 1000 * spec_path_cost(bad), 1000);
    lemma_div_multiples_vanish(spec_path_cost(bad), 1000);
}

} // verus!
