use veloinfo::cost::{get_h_bigger_selection, get_h_moyen, get_h_rapid, H};
use veloinfo::edge::{Edge, EdgePoint, SourceOrTarget};
use veloinfo::score::{Category, ConsensusScore, ScoreSelector};
use veloinfo::search::h;
use veloinfo::tags::{Cycleway, Highway, Tags};

fn tags(pairs: &[(&str, &str)]) -> Tags {
    let owned: Vec<(String, String)> = pairs
        .iter()
        .map(|(k, v)| (k.to_string(), v.to_string()))
        .collect();
    Tags::classify(&owned)
}

fn edge_with(t: Tags) -> Edge {
    Edge {
        id: 1,
        source: 1,
        target: 2,
        lon1: 0,
        lat1: 0,
        lon2: 1000,
        lat2: 0,
        score: ConsensusScore::Unknown,
        way_id: 7,
        length: 100_000,
        tags: t,
        road_work: false,
        is_conditionally_closed: false,
        in_bicycle_route: false,
        snow: false,
        elevation_start: None,
        elevation_end: None,
    }
}

fn forward(e: Edge) -> EdgePoint {
    EdgePoint {
        edge: e,
        direction: SourceOrTarget::Target,
    }
}

fn backward(e: Edge) -> EdgePoint {
    EdgePoint {
        edge: e,
        direction: SourceOrTarget::Source,
    }
}

#[test]
fn test_classify_basics() {
    let t = tags(&[("highway", "cycleway"), ("surface", "sett")]);
    assert_eq!(t.highway, Some(Highway::Cycleway));
    assert_eq!(t.surface, Some(veloinfo::tags::Surface::Sett));
    assert_eq!(t.cycleway, None);
    assert!(!t.cyclestreet);
}

#[test]
fn test_classify_first_occurrence_wins() {
    let t = tags(&[("highway", "cycleway"), ("highway", "motorway")]);
    assert_eq!(t.highway, Some(Highway::Cycleway));
}

#[test]
fn test_classify_unknown_values() {
    let t = tags(&[("highway", "bridleway"), ("cycleway", "opposite")]);
    assert_eq!(t.highway, Some(Highway::Other));
    assert_eq!(t.cycleway, Some(Cycleway::Other));
}

#[test]
fn test_cost_dedicated_infrastructure_is_neutral() {
    let m = get_h_moyen();
    assert_eq!(m.get_cost(&forward(edge_with(tags(&[("highway", "cycleway")])))), 1000);
    assert_eq!(m.get_cost(&forward(edge_with(tags(&[("cyclestreet", "yes")])))), 1000);
}

#[test]
fn test_cost_cascade_ordering() {
    let m = get_h_moyen();
    let cycleway = m.get_cost(&forward(edge_with(tags(&[("highway", "cycleway")]))));
    let lane = m.get_cost(&forward(edge_with(tags(&[("cycleway", "lane"),
        ("highway", "residential")]))));
    let shared = m.get_cost(&forward(edge_with(tags(&[("cycleway", "shared_lane"),
        ("highway", "residential")]))));
    let residential = m.get_cost(&forward(edge_with(tags(&[("highway", "residential")]))));
    let nothing = m.get_cost(&forward(edge_with(tags(&[]))));
    assert!(cycleway < lane);
    assert!(lane < shared);
    assert!(shared < residential);
    assert!(residential < nothing);
    assert_eq!(lane, 1111);
    assert_eq!(shared, 1429);
    assert_eq!(residential, 1667);
    assert_eq!(nothing, 20000);
}

#[test]
fn test_cost_hard_exclusions() {
    let m = get_h_moyen();
    assert_eq!(m.get_cost(&forward(edge_with(tags(&[("bicycle", "no"),
        ("highway", "residential")])))), 10_000_000);
    assert_eq!(m.get_cost(&forward(edge_with(tags(&[("highway", "motorway")])))), 10_000_000);
    assert_eq!(m.get_cost(&forward(edge_with(tags(&[("highway", "proposed")])))), 10_000_000);
    assert_eq!(m.get_cost(&forward(edge_with(tags(&[("highway", "steps")])))), 10_000_000);
    // An explicit bicycle override downgrades steps to merely unpleasant.
    assert_eq!(m.get_cost(&forward(edge_with(tags(&[("highway", "steps"),
        ("bicycle", "yes")])))), 16667);
}

#[test]
fn test_cost_oneway_violation() {
    let m = get_h_moyen();
    let t = tags(&[("highway", "residential"), ("oneway", "yes")]);
    // With the travel direction: the ordinary residential factor.
    assert_eq!(m.get_cost(&forward(edge_with(t))), 1667);
    // Against it: the violation factor.
    assert_eq!(m.get_cost(&backward(edge_with(t))), 2_000_000);
    // The bicycle exception lifts the restriction.
    let lifted = tags(&[("highway", "residential"), ("oneway", "yes"),
        ("oneway:bicycle", "no")]);
    assert_eq!(m.get_cost(&backward(edge_with(lifted))), 1667);
    // So does a two-way side track, which then also applies when riding
    // against the edge's orientation.
    let contraflow = tags(&[("highway", "residential"), ("oneway", "yes"),
        ("cycleway:left", "track"), ("cycleway:left:oneway", "no")]);
    assert_eq!(m.get_cost(&backward(edge_with(contraflow))), 1000);
}

#[test]
fn test_cost_side_attributes_match_direction() {
    let m = get_h_moyen();
    let left = tags(&[("highway", "residential"), ("cycleway:left", "track")]);
    // The left side matches travel toward the source endpoint only.
    assert_eq!(m.get_cost(&backward(edge_with(left))), 1000);
    assert_eq!(m.get_cost(&forward(edge_with(left))), 1667);
    let right = tags(&[("highway", "residential"), ("cycleway:right", "lane")]);
    assert_eq!(m.get_cost(&forward(edge_with(right))), 1111);
    assert_eq!(m.get_cost(&backward(edge_with(right))), 1667);
}

#[test]
fn test_cost_road_work_triples() {
    let m = get_h_moyen();
    let mut e = edge_with(tags(&[("highway", "residential")]));
    e.road_work = true;
    assert_eq!(m.get_cost(&forward(e)), 5001);
}

#[test]
fn test_cost_score_division() {
    let m = get_h_moyen();
    let mut e = edge_with(tags(&[("highway", "cycleway")]));
    e.score = ConsensusScore::Rated(500);
    assert_eq!(m.get_cost(&forward(e)), 2000);
    e.score = ConsensusScore::Rated(250);
    assert_eq!(m.get_cost(&forward(e)), 4000);
    e.score = ConsensusScore::Closed;
    assert_eq!(m.get_cost(&forward(e)), 100_000);
    e.score = ConsensusScore::Unknown;
    assert_eq!(m.get_cost(&forward(e)), 1000);
}

#[test]
fn test_cost_score_monotonic_samples() {
    let m = get_h_moyen();
    let mut better = edge_with(tags(&[("highway", "residential")]));
    better.score = ConsensusScore::Rated(800);
    let mut worse = better;
    worse.score = ConsensusScore::Rated(200);
    assert!(m.get_cost(&forward(worse)) >= m.get_cost(&forward(better)));
}

#[test]
fn test_cost_snow_gate() {
    let m = get_h_moyen();
    // The city-wide fact alone does not exclude.
    let mut e = edge_with(tags(&[("highway", "residential")]));
    e.snow = true;
    assert_eq!(m.get_cost(&forward(e)), 1667);
    // The per-edge tag alone does not exclude either.
    let closed = tags(&[("highway", "residential"), ("winter_service", "no")]);
    assert_eq!(m.get_cost(&forward(edge_with(closed))), 1667);
    // Both together do.
    let mut gated = edge_with(closed);
    gated.snow = true;
    assert_eq!(m.get_cost(&forward(gated)), 10_000_000);
    // A seasonal conditional closure under the city fact does too.
    let mut conditional = edge_with(tags(&[("highway", "residential")]));
    conditional.snow = true;
    conditional.is_conditionally_closed = true;
    assert_eq!(m.get_cost(&forward(conditional)), 10_000_000);
}

#[test]
fn test_cost_slope_is_added() {
    let m = get_h_moyen();
    let mut e = edge_with(tags(&[("highway", "residential")]));
    e.elevation_start = Some(100);
    e.elevation_end = Some(110);
    assert_eq!(m.get_cost(&forward(e)), 1667 + 340);
    // Ridden downhill, the same edge earns the discount.
    assert_eq!(m.get_cost(&backward(e)), 1667 - 68);
}

#[test]
fn test_broad_corridor_profile() {
    let b = get_h_bigger_selection();
    assert_eq!(b.get_cost(&forward(edge_with(tags(&[("highway", "cycleway")])))), 1000);
    assert_eq!(b.get_cost(&forward(edge_with(tags(&[("cycleway", "track")])))), 1111);
    assert_eq!(b.get_cost(&forward(edge_with(tags(&[("cycleway", "lane")])))), 1250);
    assert_eq!(b.get_cost(&forward(edge_with(tags(&[("highway", "residential")])))), 10000);
    assert_eq!(b.get_max_point(), 10_000);
}

#[test]
fn test_rapid_profile() {
    let r = get_h_rapid();
    assert_eq!(r.get_cost(&forward(edge_with(tags(&[("highway", "cycleway")])))), 1000);
    assert_eq!(r.get_cost(&forward(edge_with(tags(&[("highway", "secondary")])))), 1333);
    let mut worked = edge_with(tags(&[("highway", "cycleway")]));
    worked.road_work = true;
    assert_eq!(r.get_cost(&forward(worked)), 2000);
}

#[test]
fn test_heuristic_distance_and_relaxation() {
    let a = forward(edge_with(Tags::unknown()));
    // Arrival point of `a` is (1000, 0) microdegrees.
    let mut far = edge_with(Tags::unknown());
    far.lon2 = 1000;
    far.lat2 = 10_000;
    let b = forward(far);
    // 10000 microdegrees of latitude at 111 mm each, at the rate floor of
    // 800 thousandths per millimeter.
    assert_eq!(h(&a, &b), 888_000);
    let mut very_far = edge_with(Tags::unknown());
    very_far.lon2 = 1000;
    very_far.lat2 = 2_000_000;
    let c = forward(very_far);
    // Beyond 100 km the bound is deliberately scaled up threefold.
    assert_eq!(h(&a, &c), 3 * (111 * 2_000_000u64 * 800 / 1000));
}

#[test]
fn test_heuristic_admissible_on_samples() {
    let m = get_h_moyen();
    // A two-edge chain; the heuristic between its ends never exceeds the
    // chain's cost.
    let mut e1 = edge_with(tags(&[("highway", "cycleway")]));
    e1.lon1 = 0;
    e1.lat1 = 0;
    e1.lon2 = 1000;
    e1.lat2 = 0;
    e1.length = 100_000;
    let mut e2 = e1;
    e2.id = 2;
    e2.lon1 = 1000;
    e2.lat1 = 0;
    e2.lon2 = 2000;
    e2.lat2 = 0;
    let start = backward(e1);
    let goal = forward(e2);
    let w1 = veloinfo::search::traversal_cost(&forward(e1), m.get_cost(&forward(e1)));
    let w2 = veloinfo::search::traversal_cost(&goal, m.get_cost(&goal));
    assert!(h(&start, &goal) <= w1 + w2);
}

#[test]
fn test_score_selector_categories() {
    assert_eq!(ScoreSelector::get_score_selector(0).category, Category::Closed);
    assert_eq!(ScoreSelector::get_score_selector(1).category, Category::Dangerous);
    assert_eq!(ScoreSelector::get_score_selector(350).category, Category::Dangerous);
    assert_eq!(ScoreSelector::get_score_selector(351).category, Category::Problems);
    assert_eq!(ScoreSelector::get_score_selector(680).category, Category::Problems);
    assert_eq!(ScoreSelector::get_score_selector(681).category, Category::Good);
    assert_eq!(ScoreSelector::get_score_selector(1000).category, Category::Good);
}

#[test]
fn test_consensus_score_from_permille() {
    assert_eq!(ConsensusScore::from_permille(-1), ConsensusScore::Unknown);
    assert_eq!(ConsensusScore::from_permille(0), ConsensusScore::Closed);
    assert_eq!(ConsensusScore::from_permille(730), ConsensusScore::Rated(730));
    assert_eq!(ConsensusScore::from_permille(2000), ConsensusScore::Rated(1000));
}
