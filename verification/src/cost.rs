//! The cost model: a directed edge traversal mapped to a positive factor.
//!
//! Stage one (`crate::tags`) classifies raw tags; this module is stage two,
//! an ordered lookup from the classification to a factor in thousandths
//! (1000 is the neutral factor 1.0). Hard exclusions come first and yield a
//! near-maximal but finite factor, so accumulated costs stay comparable;
//! then the preferred categories in decreasing quality; then the modifiers:
//! a road-work multiplier, the added slope adjustment (an uphill penalty,
//! or a floored downhill discount), and division by the effective
//! consensus score.
//!
//! A side-specific attribute (`cycleway:left`, `cycleway:right`) applies
//! only in the matching travel direction, unless the side is explicitly
//! marked two-way by its own oneway tag. The matching of sides follows the
//! store's orientation: the left side matches travel toward the source
//! endpoint, the right side travel toward the target endpoint.
//!
//! Snow is layered explicitly: the city-wide snow fact gates, and only a
//! gated edge that also carries a winter-service-closed fact, a seasonal
//! conditional closure, or a seasonal side tag in the matching direction is
//! excluded.
//!
//! Three profiles share this module: the default balanced profile
//! (`HMoyen`), a coarse broad-corridor profile (`HBiggerSelection`) that
//! only tells dedicated infrastructure apart from the rest and caps the
//! search's expansions at a small bound, and a fast profile (`HRapid`).

use crate::edge::EdgePoint;
use crate::elevation::{get_edge_slope_cost, spec_edge_slope_cost, SLOPE_COST_LIMIT,
    SLOPE_DISCOUNT_LIMIT};
use crate::score::SCORE_UNKNOWN_EFFECTIVE;
use crate::tags::{Access, Bicycle, Cycleway, Footway, Highway, Oneway, Smoothness, Surface, Tags,
    Tunnel};
use vstd::arithmetic::div_mod::{lemma_div_is_ordered_by_denominator, lemma_div_multiples_vanish,
    lemma_div_nonincreasing, lemma_div_pos_is_pos};
use vstd::prelude::*;

verus! {

/// The neutral factor 1.0 in thousandths.
pub const FACTOR_NEUTRAL: u64 = 1000;

/// The least factor any profile can assign: the neutral factor less the
/// deepest downhill discount. The heuristic's cost-per-distance rate rests
/// on this floor.
pub const COST_RATE_FLOOR: u64 = 800;

/// The factor of a hard exclusion: near-maximal, but finite, so that
/// accumulated costs remain comparable.
pub const FACTOR_EXCLUDED: u64 = 10_000_000;

/// The factor of a oneway restriction violated in the direction of travel.
pub const FACTOR_ONEWAY_VIOLATION: u64 = 2_000_000;

/// The road-work multiplier.
pub const ROAD_WORK_MULTIPLIER: u64 = 3;

/// No profile's factor, after all modifiers, exceeds this bound: the
/// largest base factor, tripled by road work, plus the slope bound, divided
/// by the smallest positive score.
pub const COST_FACTOR_LIMIT: u64 = 31_001_000_000;

/// A cost profile: what one traversal costs per unit of length, and how
/// many node expansions a search under this profile may spend.
pub trait H: Sized {
    /// The factor this profile assigns to a traversal, in thousandths.
    spec fn spec_cost(&self, ep: EdgePoint) -> int;

    /// The expansion cap this profile imposes on a search.
    spec fn spec_max_point(&self) -> u64;

    /// Computes the factor.
    fn get_cost(&self, ep: &EdgePoint) -> (c: u64)
        requires
            ep.wf(),
        ensures
            c == self.spec_cost(*ep),
            COST_RATE_FLOOR <= c <= COST_FACTOR_LIMIT,
    ;

    /// The expansion cap.
    fn get_max_point(&self) -> (m: u64)
        ensures
            m == self.spec_max_point(),
    ;
}

// ---------------------------------------------------------------------------
// Conditions the cascades read.
// ---------------------------------------------------------------------------

/// Bicycles are expressly welcome.
pub open spec fn spec_bike_welcome(t: Tags) -> bool {
    t.bicycle == Some(Bicycle::Yes) || t.bicycle == Some(Bicycle::Designated)
}

/// The traversal crosses, or the surface quality is marked bad.
pub open spec fn spec_crossing_or_bad(t: Tags) -> bool {
    t.cycleway == Some(Cycleway::Crossing) || t.smoothness == Some(Smoothness::Bad)
}

/// A rough surface for a street: sett or cobblestone.
pub open spec fn spec_rough_street(t: Tags) -> bool {
    t.surface == Some(Surface::Sett) || t.surface == Some(Surface::Cobblestone)
}

/// A left-side attribute applies: travel is toward the source endpoint, or
/// the left side is explicitly two-way.
pub open spec fn spec_left_applies(ep: EdgePoint) -> bool {
    ep.spec_toward_source() || ep.edge.tags.cycleway_left_oneway == Some(Oneway::No)
}

/// A right-side attribute applies: travel is toward the target endpoint, or
/// the right side is explicitly two-way.
pub open spec fn spec_right_applies(ep: EdgePoint) -> bool {
    !ep.spec_toward_source() || ep.edge.tags.cycleway_right_oneway == Some(Oneway::No)
}

/// A oneway restriction is violated: travel runs against the edge's
/// orientation on a oneway edge, and neither the bicycle oneway exception
/// nor a two-way side track or lane lifts the restriction.
pub open spec fn spec_oneway_violated(ep: EdgePoint) -> bool {
    let t = ep.edge.tags;
    &&& ep.spec_toward_source()
    &&& t.oneway == Some(Oneway::Yes)
    &&& t.oneway_bicycle != Some(Oneway::No)
    &&& t.cycleway_left_oneway != Some(Oneway::No)
    &&& t.cycleway_right_oneway != Some(Oneway::No)
}

/// A seasonal side tag in the matching travel direction.
pub open spec fn spec_seasonal_side(ep: EdgePoint) -> bool {
    let t = ep.edge.tags;
    ||| t.cycleway == Some(Cycleway::Snow)
    ||| t.cycleway_both == Some(Cycleway::Snow)
    ||| (t.cycleway_left == Some(Cycleway::Snow) && spec_left_applies(ep))
    ||| (t.cycleway_right == Some(Cycleway::Snow) && spec_right_applies(ep))
}

/// The snow gate: the edge's city is snow-flagged, and the edge itself
/// carries a winter-service closure, a seasonal conditional closure, or a
/// seasonal side tag that applies in this direction.
pub open spec fn spec_winter_closed(ep: EdgePoint) -> bool {
    ep.edge.snow && (ep.edge.tags.winter_service_no || ep.edge.is_conditionally_closed
        || spec_seasonal_side(ep))
}

/// A shared-lane or shared-busway value.
pub open spec fn spec_shared(o: Option<Cycleway>) -> bool {
    o == Some(Cycleway::SharedLane) || o == Some(Cycleway::ShareBusway)
}

fn opt_hw(o: Option<Highway>, h: Highway) -> (r: bool)
    ensures
        r == (o == Some(h)),
{
    match o {
        Some(x) => x == h,
        None => false,
    }
}

fn opt_cw(o: Option<Cycleway>, c: Cycleway) -> (r: bool)
    ensures
        r == (o == Some(c)),
{
    match o {
        Some(x) => x == c,
        None => false,
    }
}

fn opt_ow(o: Option<Oneway>, w: Oneway) -> (r: bool)
    ensures
        r == (o == Some(w)),
{
    match o {
        Some(x) => x == w,
        None => false,
    }
}

fn opt_bi(o: Option<Bicycle>, b: Bicycle) -> (r: bool)
    ensures
        r == (o == Some(b)),
{
    match o {
        Some(x) => x == b,
        None => false,
    }
}

fn opt_ac(o: Option<Access>, a: Access) -> (r: bool)
    ensures
        r == (o == Some(a)),
{
    match o {
        Some(x) => x == a,
        None => false,
    }
}

fn opt_su(o: Option<Surface>, s: Surface) -> (r: bool)
    ensures
        r == (o == Some(s)),
{
    match o {
        Some(x) => x == s,
        None => false,
    }
}

fn bike_welcome(t: &Tags) -> (r: bool)
    ensures
        r == spec_bike_welcome(*t),
{
    opt_bi(t.bicycle, Bicycle::Yes) || opt_bi(t.bicycle, Bicycle::Designated)
}

fn crossing_or_bad(t: &Tags) -> (r: bool)
    ensures
        r == spec_crossing_or_bad(*t),
{
    opt_cw(t.cycleway, Cycleway::Crossing) || (match t.smoothness {
        Some(s) => s == Smoothness::Bad,
        None => false,
    })
}

fn rough_street(t: &Tags) -> (r: bool)
    ensures
        r == spec_rough_street(*t),
{
    opt_su(t.surface, Surface::Sett) || opt_su(t.surface, Surface::Cobblestone)
}

fn toward_source(ep: &EdgePoint) -> (r: bool)
    ensures
        r == ep.spec_toward_source(),
{
    matches!(ep.direction, crate::edge::SourceOrTarget::Source)
}

fn left_applies(ep: &EdgePoint) -> (r: bool)
    ensures
        r == spec_left_applies(*ep),
{
    toward_source(ep) || opt_ow(ep.edge.tags.cycleway_left_oneway, Oneway::No)
}

fn right_applies(ep: &EdgePoint) -> (r: bool)
    ensures
        r == spec_right_applies(*ep),
{
    !toward_source(ep) || opt_ow(ep.edge.tags.cycleway_right_oneway, Oneway::No)
}

fn oneway_violated(ep: &EdgePoint) -> (r: bool)
    ensures
        r == spec_oneway_violated(*ep),
{
    let t = &ep.edge.tags;
    toward_source(ep) && opt_ow(t.oneway, Oneway::Yes) && !opt_ow(t.oneway_bicycle, Oneway::No)
        && !opt_ow(t.cycleway_left_oneway, Oneway::No) && !opt_ow(
        t.cycleway_right_oneway,
        Oneway::No,
    )
}

fn winter_closed(ep: &EdgePoint) -> (r: bool)
    ensures
        r == spec_winter_closed(*ep),
{
    let t = &ep.edge.tags;
    ep.edge.snow && (t.winter_service_no || ep.edge.is_conditionally_closed || opt_cw(
        t.cycleway,
        Cycleway::Snow,
    ) || opt_cw(t.cycleway_both, Cycleway::Snow) || (opt_cw(t.cycleway_left, Cycleway::Snow)
        && left_applies(ep)) || (opt_cw(t.cycleway_right, Cycleway::Snow) && right_applies(ep)))
}

fn shared(o: Option<Cycleway>) -> (r: bool)
    ensures
        r == spec_shared(o),
{
    opt_cw(o, Cycleway::SharedLane) || opt_cw(o, Cycleway::ShareBusway)
}

// ---------------------------------------------------------------------------
// The balanced profile's base cascade.
// ---------------------------------------------------------------------------

/// The balanced profile's base factor: the ordered, first-match-wins
/// classification of a traversal, in thousandths, before any modifier.
pub open spec fn spec_moyen_base(ep: EdgePoint) -> int {
    let t = ep.edge.tags;
    if spec_oneway_violated(ep) {
        FACTOR_ONEWAY_VIOLATION as int
    } else if spec_winter_closed(ep) {
        FACTOR_EXCLUDED as int
    } else if t.bicycle == Some(Bicycle::No) {
        FACTOR_EXCLUDED as int
    } else if t.access == Some(Access::Private) || t.access == Some(Access::No) {
        if spec_bike_welcome(t) {
            2500
        } else {
            FACTOR_EXCLUDED as int
        }
    } else if t.highway == Some(Highway::Proposed) || t.abandoned || t.highway == Some(
        Highway::Motorway,
    ) {
        FACTOR_EXCLUDED as int
    } else if t.highway == Some(Highway::Steps) {
        if spec_bike_welcome(t) {
            16667
        } else {
            FACTOR_EXCLUDED as int
        }
    } else if t.access == Some(Access::Customers) {
        5000
    } else if t.informal {
        20000
    } else if t.highway == Some(Highway::Path) && (t.bicycle == Some(Bicycle::Dismount)
        || t.bicycle == Some(Bicycle::Discouraged)) {
        10000
    } else if t.bicycle == Some(Bicycle::Discouraged) {
        10000
    } else if t.use_sidepath {
        10000
    } else if t.highway == Some(Highway::Cycleway) {
        if t.surface == Some(Surface::FineGravel) || t.surface == Some(Surface::Gravel) {
            1333
        } else if spec_crossing_or_bad(t) {
            2000
        } else {
            1000
        }
    } else if t.cyclestreet {
        1000
    } else if t.cycleway == Some(Cycleway::Track) || t.cycleway_both == Some(Cycleway::Track) {
        if spec_crossing_or_bad(t) {
            2000
        } else {
            1000
        }
    } else if t.cycleway_left == Some(Cycleway::Track) && spec_left_applies(ep) {
        if spec_crossing_or_bad(t) {
            2000
        } else {
            1000
        }
    } else if t.cycleway_right == Some(Cycleway::Track) && spec_right_applies(ep) {
        if spec_crossing_or_bad(t) {
            2000
        } else {
            1000
        }
    } else if t.cycleway == Some(Cycleway::Lane) || t.cycleway_both == Some(Cycleway::Lane) {
        if spec_crossing_or_bad(t) {
            2000
        } else {
            1111
        }
    } else if t.cycleway_left == Some(Cycleway::Lane) && spec_left_applies(ep) {
        if spec_crossing_or_bad(t) {
            2000
        } else {
            1111
        }
    } else if t.cycleway_right == Some(Cycleway::Lane) && spec_right_applies(ep) {
        if spec_crossing_or_bad(t) {
            2000
        } else {
            1111
        }
    } else if t.highway == Some(Highway::Footway) {
        if spec_bike_welcome(t) {
            if t.footway == Some(Footway::Sidewalk) {
                2500
            } else {
                1429
            }
        } else if t.bicycle == Some(Bicycle::Dismount) {
            if t.tunnel == Some(Tunnel::Yes) {
                5000
            } else {
                3333
            }
        } else {
            10000
        }
    } else if spec_shared(t.cycleway) || spec_shared(t.cycleway_both) {
        if spec_crossing_or_bad(t) || t.surface == Some(Surface::Sett) {
            2000
        } else {
            1429
        }
    } else if spec_shared(t.cycleway_left) && spec_left_applies(ep) {
        if spec_crossing_or_bad(t) || t.surface == Some(Surface::Sett) {
            2000
        } else {
            1429
        }
    } else if spec_shared(t.cycleway_right) && spec_right_applies(ep) {
        if spec_crossing_or_bad(t) || t.surface == Some(Surface::Sett) {
            2000
        } else {
            1429
        }
    } else if t.highway == Some(Highway::Residential) {
        if spec_rough_street(t) {
            2500
        } else if spec_bike_welcome(t) {
            1176
        } else {
            1667
        }
    } else if t.highway == Some(Highway::Unclassified) {
        2000
    } else if t.highway == Some(Highway::Tertiary) {
        if spec_rough_street(t) {
            3333
        } else if ep.edge.in_bicycle_route {
            1667
        } else {
            2000
        }
    } else if t.highway == Some(Highway::Service) {
        if t.surface == Some(Surface::Chipseal) {
            5000
        } else {
            3333
        }
    } else if t.highway == Some(Highway::Secondary) {
        if spec_rough_street(t) {
            3333
        } else if ep.edge.in_bicycle_route {
            1667
        } else {
            2500
        }
    } else if ep.edge.in_bicycle_route {
        1667
    } else if spec_bike_welcome(t) {
        2500
    } else if t.highway == Some(Highway::SecondaryLink) {
        2500
    } else if t.highway is Some {
        3333
    } else {
        20000
    }
}

/// Computes `spec_moyen_base`.
fn moyen_base(ep: &EdgePoint) -> (c: u64)
    ensures
        c == spec_moyen_base(*ep),
        FACTOR_NEUTRAL <= c <= FACTOR_EXCLUDED,
{
    let t = &ep.edge.tags;
    if oneway_violated(ep) {
        FACTOR_ONEWAY_VIOLATION
    } else if winter_closed(ep) {
        FACTOR_EXCLUDED
    } else if opt_bi(t.bicycle, Bicycle::No) {
        FACTOR_EXCLUDED
    } else if opt_ac(t.access, Access::Private) || opt_ac(t.access, Access::No) {
        if bike_welcome(t) {
            2500
        } else {
            FACTOR_EXCLUDED
        }
    } else if opt_hw(t.highway, Highway::Proposed) || t.abandoned || opt_hw(
        t.highway,
        Highway::Motorway,
    ) {
        FACTOR_EXCLUDED
    } else if opt_hw(t.highway, Highway::Steps) {
        if bike_welcome(t) {
            16667
        } else {
            FACTOR_EXCLUDED
        }
    } else if opt_ac(t.access, Access::Customers) {
        5000
    } else if t.informal {
        20000
    } else if opt_hw(t.highway, Highway::Path) && (opt_bi(t.bicycle, Bicycle::Dismount) || opt_bi(
        t.bicycle,
        Bicycle::Discouraged,
    )) {
        10000
    } else if opt_bi(t.bicycle, Bicycle::Discouraged) {
        10000
    } else if t.use_sidepath {
        10000
    } else if opt_hw(t.highway, Highway::Cycleway) {
        if opt_su(t.surface, Surface::FineGravel) || opt_su(t.surface, Surface::Gravel) {
            1333
        } else if crossing_or_bad(t) {
            2000
        } else {
            1000
        }
    } else if t.cyclestreet {
        1000
    } else if opt_cw(t.cycleway, Cycleway::Track) || opt_cw(t.cycleway_both, Cycleway::Track) {
        if crossing_or_bad(t) {
            2000
        } else {
            1000
        }
    } else if opt_cw(t.cycleway_left, Cycleway::Track) && left_applies(ep) {
        if crossing_or_bad(t) {
            2000
        } else {
            1000
        }
    } else if opt_cw(t.cycleway_right, Cycleway::Track) && right_applies(ep) {
        if crossing_or_bad(t) {
            2000
        } else {
            1000
        }
    } else if opt_cw(t.cycleway, Cycleway::Lane) || opt_cw(t.cycleway_both, Cycleway::Lane) {
        if crossing_or_bad(t) {
            2000
        } else {
            1111
        }
    } else if opt_cw(t.cycleway_left, Cycleway::Lane) && left_applies(ep) {
        if crossing_or_bad(t) {
            2000
        } else {
            1111
        }
    } else if opt_cw(t.cycleway_right, Cycleway::Lane) && right_applies(ep) {
        if crossing_or_bad(t) {
            2000
        } else {
            1111
        }
    } else if opt_hw(t.highway, Highway::Footway) {
        if bike_welcome(t) {
            if matches!(t.footway, Some(Footway::Sidewalk)) {
                2500
            } else {
                1429
            }
        } else if opt_bi(t.bicycle, Bicycle::Dismount) {
            if matches!(t.tunnel, Some(Tunnel::Yes)) {
                5000
            } else {
                3333
            }
        } else {
            10000
        }
    } else if shared(t.cycleway) || shared(t.cycleway_both) {
        if crossing_or_bad(t) || opt_su(t.surface, Surface::Sett) {
            2000
        } else {
            1429
        }
    } else if shared(t.cycleway_left) && left_applies(ep) {
        if crossing_or_bad(t) || opt_su(t.surface, Surface::Sett) {
            2000
        } else {
            1429
        }
    } else if shared(t.cycleway_right) && right_applies(ep) {
        if crossing_or_bad(t) || opt_su(t.surface, Surface::Sett) {
            2000
        } else {
            1429
        }
    } else if opt_hw(t.highway, Highway::Residential) {
        if rough_street(t) {
            2500
        } else if bike_welcome(t) {
            1176
        } else {
            1667
        }
    } else if opt_hw(t.highway, Highway::Unclassified) {
        2000
    } else if opt_hw(t.highway, Highway::Tertiary) {
        if rough_street(t) {
            3333
        } else if ep.edge.in_bicycle_route {
            1667
        } else {
            2000
        }
    } else if opt_hw(t.highway, Highway::Service) {
        if opt_su(t.surface, Surface::Chipseal) {
            5000
        } else {
            3333
        }
    } else if opt_hw(t.highway, Highway::Secondary) {
        if rough_street(t) {
            3333
        } else if ep.edge.in_bicycle_route {
            1667
        } else {
            2500
        }
    } else if ep.edge.in_bicycle_route {
        1667
    } else if bike_welcome(t) {
        2500
    } else if opt_hw(t.highway, Highway::SecondaryLink) {
        2500
    } else if t.highway.is_some() {
        3333
    } else {
        20000
    }
}

// ---------------------------------------------------------------------------
// Modifiers shared by the profiles.
// ---------------------------------------------------------------------------

/// A base factor after the road-work multiplier, the slope adjustment and
/// the consensus-score division.
pub open spec fn spec_apply_modifiers(ep: EdgePoint, base: int, slope: int) -> int {
    let worked = if ep.edge.road_work {
        base * ROAD_WORK_MULTIPLIER
    } else {
        base
    };
    ((worked + slope) * 1000) / ep.edge.score.spec_effective()
}

/// Applies the modifiers, with the bounds that make the result a valid
/// factor: never below the rate floor (a downhill discount is bounded, and
/// a score only ever makes an edge dearer), never above
/// `COST_FACTOR_LIMIT`.
fn apply_modifiers(ep: &EdgePoint, base: u64, slope: i64) -> (c: u64)
    requires
        ep.wf(),
        FACTOR_NEUTRAL <= base <= FACTOR_EXCLUDED,
        -(SLOPE_DISCOUNT_LIMIT as i64) <= slope <= SLOPE_COST_LIMIT as i64,
    ensures
        c == spec_apply_modifiers(*ep, base as int, slope as int),
        COST_RATE_FLOOR <= c <= COST_FACTOR_LIMIT,
{
    let worked: u64 = if ep.edge.road_work {
        base * ROAD_WORK_MULTIPLIER
    } else {
        base
    };
    let adjusted: u64 = if slope >= 0 {
        worked + (slope as u64)
    } else {
        worked - ((-slope) as u64)
    };
    let eff: u64 = ep.edge.score.effective();
    let c = (adjusted * 1000) / eff;
    proof {
        lemma_div_is_ordered_by_denominator(
            (adjusted * 1000) as int,
            eff as int,
            SCORE_UNKNOWN_EFFECTIVE as int,
        );
        lemma_div_multiples_vanish(adjusted as int, 1000);
        lemma_div_nonincreasing((adjusted * 1000) as int, eff as int);
        lemma_div_pos_is_pos((adjusted * 1000) as int, eff as int);
    }
    c
}


// ---------------------------------------------------------------------------
// The profiles.
// ---------------------------------------------------------------------------

/// The default balanced profile: the full cascade, road work, slope and
/// score, with no effective bound on expansions.
pub struct HMoyen {}

/// What the balanced profile charges for a traversal.
pub open spec fn spec_moyen_cost(ep: EdgePoint) -> int {
    spec_apply_modifiers(ep, spec_moyen_base(ep), spec_edge_slope_cost(ep))
}

impl H for HMoyen {
    open spec fn spec_cost(&self, ep: EdgePoint) -> int {
        spec_moyen_cost(ep)
    }

    open spec fn spec_max_point(&self) -> u64 {
        u64::MAX
    }

    fn get_cost(&self, ep: &EdgePoint) -> (c: u64) {
        let base = moyen_base(ep);
        let slope = get_edge_slope_cost(ep);
        apply_modifiers(ep, base, slope)
    }

    fn get_max_point(&self) -> (m: u64) {
        u64::MAX
    }
}

/// The default balanced profile.
pub fn get_h_moyen() -> (h: HMoyen)
    ensures
        h == (HMoyen {  }),
{
    HMoyen {  }
}

/// The broad-corridor profile: only dedicated infrastructure is told apart
/// from the rest, and the expansion cap is small — the result approximates
/// the street corridor between two points rather than a turn-accurate
/// route. Road work, slope and score are not consulted.
pub struct HBiggerSelection {}

/// What the broad-corridor profile charges for a traversal.
pub open spec fn spec_bigger_selection_cost(ep: EdgePoint) -> int {
    let t = ep.edge.tags;
    if t.highway == Some(Highway::Cycleway) {
        1000
    } else if t.cyclestreet {
        1000
    } else if t.cycleway == Some(Cycleway::Crossing) {
        1000
    } else if t.cycleway == Some(Cycleway::Track) || t.cycleway_both == Some(Cycleway::Track)
        || t.cycleway_left == Some(Cycleway::Track) || t.cycleway_right == Some(Cycleway::Track) {
        1111
    } else if t.cycleway == Some(Cycleway::Lane) || t.cycleway_both == Some(Cycleway::Lane)
        || t.cycleway_left == Some(Cycleway::Lane) || t.cycleway_right == Some(Cycleway::Lane) {
        1250
    } else if spec_shared(t.cycleway) || spec_shared(t.cycleway_both) || spec_shared(
        t.cycleway_left,
    ) || spec_shared(t.cycleway_right) {
        1429
    } else if t.highway == Some(Highway::Unclassified) {
        1429
    } else if t.bicycle == Some(Bicycle::Designated) {
        1429
    } else {
        10000
    }
}

impl H for HBiggerSelection {
    open spec fn spec_cost(&self, ep: EdgePoint) -> int {
        spec_bigger_selection_cost(ep)
    }

    open spec fn spec_max_point(&self) -> u64 {
        10_000
    }

    fn get_cost(&self, ep: &EdgePoint) -> (c: u64) {
        let t = &ep.edge.tags;
        if opt_hw(t.highway, Highway::Cycleway) {
            1000
        } else if t.cyclestreet {
            1000
        } else if opt_cw(t.cycleway, Cycleway::Crossing) {
            1000
        } else if opt_cw(t.cycleway, Cycleway::Track) || opt_cw(t.cycleway_both, Cycleway::Track)
            || opt_cw(t.cycleway_left, Cycleway::Track) || opt_cw(
            t.cycleway_right,
            Cycleway::Track,
        ) {
            1111
        } else if opt_cw(t.cycleway, Cycleway::Lane) || opt_cw(t.cycleway_both, Cycleway::Lane)
            || opt_cw(t.cycleway_left, Cycleway::Lane) || opt_cw(t.cycleway_right, Cycleway::Lane) {
            1250
        } else if shared(t.cycleway) || shared(t.cycleway_both) || shared(t.cycleway_left)
            || shared(t.cycleway_right) {
            1429
        } else if opt_hw(t.highway, Highway::Unclassified) {
            1429
        } else if opt_bi(t.bicycle, Bicycle::Designated) {
            1429
        } else {
            10000
        }
    }

    fn get_max_point(&self) -> (m: u64) {
        10_000
    }
}

/// The broad-corridor profile.
pub fn get_h_bigger_selection() -> (h: HBiggerSelection)
    ensures
        h == (HBiggerSelection {  }),
{
    HBiggerSelection {  }
}

/// The fast profile: a flatter cascade that penalizes detours less, no
/// slope adjustment, a fixed moderate factor wherever road work stands,
/// and the same consensus-score division as the balanced profile.
pub struct HRapid {}

/// The fast profile's base factor, before the oneway check and the
/// road-work override.
pub open spec fn spec_rapid_base(ep: EdgePoint) -> int {
    let t = ep.edge.tags;
    if t.bicycle == Some(Bicycle::No) {
        10000
    } else if t.highway == Some(Highway::Proposed) {
        20000
    } else if t.informal {
        10000
    } else if t.highway == Some(Highway::Steps) {
        if t.bicycle == Some(Bicycle::Yes) {
            3333
        } else {
            10000
        }
    } else if t.highway == Some(Highway::Path) && (t.bicycle == Some(Bicycle::Dismount)
        || t.bicycle == Some(Bicycle::Discouraged)) {
        20000
    } else if t.bicycle == Some(Bicycle::Discouraged) {
        10000
    } else if t.use_sidepath {
        10000
    } else if t.bicycle == Some(Bicycle::Dismount) {
        5000
    } else if t.highway == Some(Highway::Cycleway) || t.cyclestreet || t.cycleway == Some(
        Cycleway::Crossing,
    ) {
        1000
    } else if t.cycleway == Some(Cycleway::Track) || t.cycleway_both == Some(Cycleway::Track)
        || (t.cycleway_left == Some(Cycleway::Track) && ep.spec_toward_source())
        || (t.cycleway_right == Some(Cycleway::Track) && !ep.spec_toward_source()) {
        1053
    } else if t.cycleway == Some(Cycleway::Lane) || t.cycleway_both == Some(Cycleway::Lane)
        || (t.cycleway_left == Some(Cycleway::Lane) && ep.spec_toward_source())
        || (t.cycleway_right == Some(Cycleway::Lane) && !ep.spec_toward_source()) {
        1111
    } else if t.highway == Some(Highway::Footway) || t.highway == Some(Highway::Pedestrian) {
        1111
    } else if spec_shared(t.cycleway) || spec_shared(t.cycleway_both) || t.bicycle == Some(
        Bicycle::Designated,
    ) || (spec_shared(t.cycleway_left) && ep.spec_toward_source()) || (spec_shared(
        t.cycleway_right,
    ) && !ep.spec_toward_source()) {
        1176
    } else if t.highway == Some(Highway::Residential) {
        if t.bicycle == Some(Bicycle::Yes) {
            1176
        } else {
            1250
        }
    } else if t.highway == Some(Highway::Unclassified) || t.highway == Some(Highway::Tertiary)
        || t.highway == Some(Highway::TertiaryLink) || t.bicycle == Some(Bicycle::Yes)
        || t.cycleway == Some(Cycleway::Separate) || t.cycleway_both == Some(Cycleway::Separate)
        || (t.cycleway_left == Some(Cycleway::Separate) && ep.spec_toward_source()) || (
    t.cycleway_right == Some(Cycleway::Separate) && !ep.spec_toward_source()) {
        1250
    } else if t.highway == Some(Highway::Secondary) || t.highway == Some(Highway::SecondaryLink)
        || t.highway == Some(Highway::Primary) || t.highway == Some(Highway::Trunk) {
        1333
    } else if t.highway is Some {
        2000
    } else {
        10000
    }
}

/// What the fast profile charges: a violated oneway first, then a fixed
/// moderate factor wherever road work stands, else its base cascade; the
/// result is divided by the effective consensus score.
pub open spec fn spec_rapid_cost(ep: EdgePoint) -> int {
    let base = if spec_oneway_violated(ep) {
        20000
    } else if ep.edge.road_work {
        2000
    } else {
        spec_rapid_base(ep)
    };
    (base * 1000) / ep.edge.score.spec_effective()
}

impl H for HRapid {
    open spec fn spec_cost(&self, ep: EdgePoint) -> int {
        spec_rapid_cost(ep)
    }

    open spec fn spec_max_point(&self) -> u64 {
        1_000_000_000_000_000_000
    }

    fn get_cost(&self, ep: &EdgePoint) -> (c: u64) {
        let t = &ep.edge.tags;
        let base: u64 = if oneway_violated(ep) {
            20000
        } else if ep.edge.road_work {
            2000
        } else if opt_bi(t.bicycle, Bicycle::No) {
            10000
        } else if opt_hw(t.highway, Highway::Proposed) {
            20000
        } else if t.informal {
            10000
        } else if opt_hw(t.highway, Highway::Steps) {
            if opt_bi(t.bicycle, Bicycle::Yes) {
                3333
            } else {
                10000
            }
        } else if opt_hw(t.highway, Highway::Path) && (opt_bi(t.bicycle, Bicycle::Dismount)
            || opt_bi(t.bicycle, Bicycle::Discouraged)) {
            20000
        } else if opt_bi(t.bicycle, Bicycle::Discouraged) {
            10000
        } else if t.use_sidepath {
            10000
        } else if opt_bi(t.bicycle, Bicycle::Dismount) {
            5000
        } else if opt_hw(t.highway, Highway::Cycleway) || t.cyclestreet || opt_cw(
            t.cycleway,
            Cycleway::Crossing,
        ) {
            1000
        } else if opt_cw(t.cycleway, Cycleway::Track) || opt_cw(t.cycleway_both, Cycleway::Track)
            || (opt_cw(t.cycleway_left, Cycleway::Track) && toward_source(ep)) || (opt_cw(
            t.cycleway_right,
            Cycleway::Track,
        ) && !toward_source(ep)) {
            1053
        } else if opt_cw(t.cycleway, Cycleway::Lane) || opt_cw(t.cycleway_both, Cycleway::Lane)
            || (opt_cw(t.cycleway_left, Cycleway::Lane) && toward_source(ep)) || (opt_cw(
            t.cycleway_right,
            Cycleway::Lane,
        ) && !toward_source(ep)) {
            1111
        } else if opt_hw(t.highway, Highway::Footway) || opt_hw(t.highway, Highway::Pedestrian) {
            1111
        } else if shared(t.cycleway) || shared(t.cycleway_both) || opt_bi(
            t.bicycle,
            Bicycle::Designated,
        ) || (shared(t.cycleway_left) && toward_source(ep)) || (shared(t.cycleway_right)
            && !toward_source(ep)) {
            1176
        } else if opt_hw(t.highway, Highway::Residential) {
            if opt_bi(t.bicycle, Bicycle::Yes) {
                1176
            } else {
                1250
            }
        } else if opt_hw(t.highway, Highway::Unclassified) || opt_hw(t.highway, Highway::Tertiary)
            || opt_hw(t.highway, Highway::TertiaryLink) || opt_bi(t.bicycle, Bicycle::Yes)
            || opt_cw(t.cycleway, Cycleway::Separate) || opt_cw(t.cycleway_both, Cycleway::Separate)
            || (opt_cw(t.cycleway_left, Cycleway::Separate) && toward_source(ep)) || (opt_cw(
            t.cycleway_right,
            Cycleway::Separate,
        ) && !toward_source(ep)) {
            1250
        } else if opt_hw(t.highway, Highway::Secondary) || opt_hw(t.highway, Highway::SecondaryLink)
            || opt_hw(t.highway, Highway::Primary) || opt_hw(t.highway, Highway::Trunk) {
            1333
        } else if t.highway.is_some() {
            2000
        } else {
            10000
        };
        let eff: u64 = ep.edge.score.effective();
        let c = (base * 1000) / eff;
        proof {
            lemma_div_is_ordered_by_denominator(
                (base * 1000) as int,
                eff as int,
                SCORE_UNKNOWN_EFFECTIVE as int,
            );
            lemma_div_multiples_vanish(base as int, 1000);
            lemma_div_nonincreasing((base * 1000) as int, eff as int);
        }
        c
    }

    fn get_max_point(&self) -> (m: u64) {
        1_000_000_000_000_000_000
    }
}

/// The fast profile.
pub fn get_h_rapid() -> (h: HRapid)
    ensures
        h == (HRapid {  }),
{
    HRapid {  }
}

} // verus!
