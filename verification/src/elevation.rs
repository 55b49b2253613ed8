//! The slope sub-model: a cost adjustment from terrain slope.
//!
//! The adjustment is additive with neutral element 0: it is 0 when either
//! elevation is unknown or the length is not positive; uphill it is
//! monotonically non-decreasing in the slope and bounded above by
//! `SLOPE_COST_LIMIT` — a steep climb makes an edge dearer but never
//! effectively impassable, which is reserved for hard exclusions; downhill
//! it decreases from neutral, a discount of a fifth of the uphill ramp,
//! floored at `-SLOPE_DISCOUNT_LIMIT` so a descent never comes close to
//! cancelling an edge's base factor. The heuristic accounts for the floor:
//! its cheapest-possible rate is the neutral factor minus this discount.

use crate::edge::{EdgePoint, ELEVATION_LIMIT};
use vstd::arithmetic::div_mod::{lemma_div_is_ordered, lemma_div_nonincreasing, lemma_div_pos_is_pos};
use vstd::prelude::*;

verus! {

/// Upper bound of the slope adjustment, in thousandths of a cost factor.
pub const SLOPE_COST_LIMIT: u64 = 1000;

/// The deepest downhill discount, in thousandths of a cost factor: a fifth
/// of the uphill bound.
pub const SLOPE_DISCOUNT_LIMIT: u64 = 200;

/// Thousandths of adjustment per percent of uphill slope.
pub const SLOPE_COST_PER_PERCENT: u64 = 34;

/// The slope, in percent, at which the uphill ramp reaches its bound.
pub const SLOPE_RAMP_TOP: u64 = 30;

/// Slope in percent: rise over run, truncated toward zero; 0 when the run
/// is not positive.
pub open spec fn spec_slope_percentage(
    elevation_start: int,
    elevation_end: int,
    distance_meters: int,
) -> int {
    if distance_meters <= 0 {
        0
    } else if elevation_end >= elevation_start {
        ((elevation_end - elevation_start) * 100) / distance_meters
    } else {
        -(((elevation_start - elevation_end) * 100) / distance_meters)
    }
}

/// Computes `spec_slope_percentage` on machine integers.
pub fn calculate_slope_percentage(elevation_start: i64, elevation_end: i64, distance_meters: u64)
    -> (p: i64)
    requires
        -ELEVATION_LIMIT <= elevation_start <= ELEVATION_LIMIT,
        -ELEVATION_LIMIT <= elevation_end <= ELEVATION_LIMIT,
    ensures
        p == spec_slope_percentage(
            elevation_start as int,
            elevation_end as int,
            distance_meters as int,
        ),
        -2_000_000 <= p <= 2_000_000,
{
    if distance_meters == 0 {
        return 0;
    }
    if elevation_end >= elevation_start {
        let rise: u64 = (elevation_end - elevation_start) as u64;
        let q: u64 = (rise * 100) / distance_meters;
        proof {
            lemma_div_nonincreasing((rise * 100) as int, distance_meters as int);
            lemma_div_pos_is_pos((rise * 100) as int, distance_meters as int);
        }
        q as i64
    } else {
        let drop: u64 = (elevation_start - elevation_end) as u64;
        let q: u64 = (drop * 100) / distance_meters;
        proof {
            lemma_div_nonincreasing((drop * 100) as int, distance_meters as int);
            lemma_div_pos_is_pos((drop * 100) as int, distance_meters as int);
        }
        -(q as i64)
    }
}

/// The adjustment for a slope in percent: a capped ramp uphill, downhill a
/// discount of a fifth of that ramp, floored by the ramp's own bound.
pub open spec fn spec_slope_cost(slope_percentage: int) -> int {
    if slope_percentage >= 0 {
        spec_slope_ramp(slope_percentage)
    } else {
        -(spec_slope_ramp(-slope_percentage) / 5)
    }
}

/// The uphill ramp: linear in the slope until it reaches the bound.
pub open spec fn spec_slope_ramp(p: int) -> int {
    if p >= SLOPE_RAMP_TOP {
        SLOPE_COST_LIMIT as int
    } else if p <= 0 {
        0
    } else {
        p * SLOPE_COST_PER_PERCENT
    }
}

/// Computes `spec_slope_cost` on machine integers.
pub fn get_slope_cost(slope_percentage: i64) -> (c: i64)
    requires
        slope_percentage > i64::MIN,
    ensures
        c == spec_slope_cost(slope_percentage as int),
        -(SLOPE_DISCOUNT_LIMIT as i64) <= c <= SLOPE_COST_LIMIT as i64,
{
    if slope_percentage >= 0 {
        slope_ramp(slope_percentage) as i64
    } else {
        let r = slope_ramp(-slope_percentage);
        proof {
            lemma_div_nonincreasing(r as int, 5);
            lemma_div_pos_is_pos(r as int, 5);
        }
        -((r / 5) as i64)
    }
}

fn slope_ramp(p: i64) -> (c: u64)
    requires
        p >= 0,
    ensures
        c == spec_slope_ramp(p as int),
        c <= SLOPE_COST_LIMIT,
{
    if p >= SLOPE_RAMP_TOP as i64 {
        SLOPE_COST_LIMIT
    } else if p == 0 {
        0
    } else {
        (p as u64) * SLOPE_COST_PER_PERCENT
    }
}

/// The slope adjustment of a traversal: the elevations are read in travel
/// order, and the adjustment is 0 when either elevation is unknown or the
/// edge is shorter than a meter.
pub open spec fn spec_edge_slope_cost(ep: EdgePoint) -> int {
    match (ep.edge.elevation_start, ep.edge.elevation_end) {
        (Some(es), Some(ee)) => {
            let from = if ep.spec_toward_source() {
                ee
            } else {
                es
            };
            let to = if ep.spec_toward_source() {
                es
            } else {
                ee
            };
            spec_slope_cost(
                spec_slope_percentage(from as int, to as int, ep.edge.length as int / 1000),
            )
        },
        _ => 0,
    }
}

/// Computes `spec_edge_slope_cost`.
pub fn get_edge_slope_cost(ep: &EdgePoint) -> (c: i64)
    requires
        ep.wf(),
    ensures
        c == spec_edge_slope_cost(*ep),
        -(SLOPE_DISCOUNT_LIMIT as i64) <= c <= SLOPE_COST_LIMIT as i64,
{
    match (ep.edge.elevation_start, ep.edge.elevation_end) {
        (Some(es), Some(ee)) => {
            let toward_source = matches!(ep.direction, crate::edge::SourceOrTarget::Source);
            let from = if toward_source {
                ee
            } else {
                es
            };
            let to = if toward_source {
                es
            } else {
                ee
            };
            let p = calculate_slope_percentage(from, to, ep.edge.length / 1000);
            get_slope_cost(p)
        },
        _ => 0,
    }
}

/// Uphill, the adjustment never decreases with the slope.
pub proof fn lemma_slope_cost_monotonic_uphill(p1: int, p2: int)
    requires
        0 <= p1 <= p2,
    ensures
        spec_slope_cost(p1) <= spec_slope_cost(p2),
{
    if p1 < SLOPE_RAMP_TOP && p2 < SLOPE_RAMP_TOP {
        vstd::arithmetic::mul::lemma_mul_inequality(p1, p2, SLOPE_COST_PER_PERCENT as int);
    }
}

/// Downhill, the adjustment decreases from neutral but never past the
/// floor.
pub proof fn lemma_slope_cost_downhill(p: int)
    requires
        p < 0,
    ensures
        -(SLOPE_DISCOUNT_LIMIT as int) <= spec_slope_cost(p) <= 0,
{
    lemma_slope_ramp_bounds(-p);
    vstd::arithmetic::div_mod::lemma_div_pos_is_pos(spec_slope_ramp(-p), 5);
    vstd::arithmetic::div_mod::lemma_div_is_ordered(
        spec_slope_ramp(-p),
        SLOPE_COST_LIMIT as int,
        5,
    );
}

/// The adjustment always lies between the downhill floor and the uphill
/// bound.
pub proof fn lemma_slope_cost_bounds(p: int)
    ensures
        -(SLOPE_DISCOUNT_LIMIT as int) <= spec_slope_cost(p) <= SLOPE_COST_LIMIT,
{
    if p >= 0 {
        lemma_slope_ramp_bounds(p);
    } else {
        lemma_slope_cost_downhill(p);
    }
}

proof fn lemma_slope_ramp_bounds(p: int)
    requires
        p >= 0,
    ensures
        0 <= spec_slope_ramp(p) <= SLOPE_COST_LIMIT,
{
    if 0 < p < SLOPE_RAMP_TOP {
        vstd::arithmetic::mul::lemma_mul_inequality(p, SLOPE_RAMP_TOP as int - 1,
            SLOPE_COST_PER_PERCENT as int);
        vstd::arithmetic::mul::lemma_mul_inequality(1, p, SLOPE_COST_PER_PERCENT as int);
    }
}

} // verus!
