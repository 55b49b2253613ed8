use veloinfo::edge::{Edge, EdgePoint, SourceOrTarget};
use veloinfo::elevation::{calculate_slope_percentage, get_edge_slope_cost, get_slope_cost};
use veloinfo::score::ConsensusScore;
use veloinfo::tags::Tags;

fn flat_edge(length: u64, elevation_start: Option<i64>, elevation_end: Option<i64>) -> EdgePoint {
    EdgePoint {
        edge: Edge {
            id: 1,
            source: 1,
            target: 2,
            lon1: 0,
            lat1: 0,
            lon2: 100,
            lat2: 0,
            score: ConsensusScore::Unknown,
            way_id: 1,
            length,
            tags: Tags::unknown(),
            road_work: false,
            is_conditionally_closed: false,
            in_bicycle_route: false,
            snow: false,
            elevation_start,
            elevation_end,
        },
        direction: SourceOrTarget::Target,
    }
}

#[test]
fn test_flat_slope() {
    assert_eq!(calculate_slope_percentage(100, 101, 50), 2);
    assert_eq!(calculate_slope_percentage(100, 100, 100), 0);
}

#[test]
fn test_slope_cost_multiplier_uphill() {
    let cost_3_percent = get_slope_cost(3);
    let cost_6_percent = get_slope_cost(6);
    let cost_12_percent = get_slope_cost(12);

    assert!(cost_3_percent < cost_6_percent);
    assert!(cost_6_percent < cost_12_percent);
}

#[test]
fn test_slope_cost_neutral_without_elevation() {
    let ep = flat_edge(100_000, None, None);
    assert_eq!(get_edge_slope_cost(&ep), 0);
    let ep = flat_edge(100_000, Some(100), None);
    assert_eq!(get_edge_slope_cost(&ep), 0);
}

#[test]
fn test_slope_cost_exact_values() {
    // 100 m long, 10 m up: a 10% climb costs 10 * 34 thousandths.
    let ep = flat_edge(100_000, Some(100), Some(110));
    assert_eq!(get_edge_slope_cost(&ep), 340);
    // The same edge ridden the other way is a descent: a discount of a
    // fifth of the climb.
    let down = EdgePoint {
        edge: ep.edge,
        direction: SourceOrTarget::Source,
    };
    assert_eq!(get_edge_slope_cost(&down), -68);
    // A 30% climb hits the bound; steeper climbs stay there.
    let steep = flat_edge(100_000, Some(100), Some(130));
    assert_eq!(get_edge_slope_cost(&steep), 1000);
    let steeper = flat_edge(100_000, Some(100), Some(180));
    assert_eq!(get_edge_slope_cost(&steeper), 1000);
}

#[test]
fn test_slope_percentage_downhill() {
    assert_eq!(calculate_slope_percentage(110, 100, 100), -10);
    assert_eq!(get_slope_cost(-10), -(get_slope_cost(10) / 5));
    assert!(get_slope_cost(-100) >= -200);
    assert_eq!(get_slope_cost(0), 0);
}
