use veloinfo::edge::{Edge, EdgePoint, SourceOrTarget};
use veloinfo::geom::dist_lb;
use veloinfo::route_panel::RoutePanel;
use veloinfo::score::ConsensusScore;
use veloinfo::search::{sat_add, OpenSet};
use veloinfo::store::{nodes_of_ways, CitySnow};
use veloinfo::tags::Tags;

fn plain_edge(id: i64) -> Edge {
    Edge {
        id,
        source: 10,
        target: 20,
        lon1: 0,
        lat1: 0,
        lon2: 1000,
        lat2: 0,
        score: ConsensusScore::Unknown,
        way_id: 5,
        length: 100_000,
        tags: Tags::unknown(),
        road_work: false,
        is_conditionally_closed: false,
        in_bicycle_route: false,
        snow: false,
        elevation_start: None,
        elevation_end: None,
    }
}

#[test]
fn test_route_panel_error() {
    let p = RoutePanel::error("no route".to_string());
    assert_eq!(p.coordinates, "[]");
    assert_eq!(p.error, "no route");
}

#[test]
fn test_city_snow_record() {
    let c = CitySnow::new("Verdun".to_string(), true);
    assert_eq!(c.name, "Verdun");
    assert!(c.snow);
}

#[test]
fn test_edge_point_direction_frame() {
    let e = plain_edge(1);
    let toward_target = EdgePoint {
        edge: e,
        direction: SourceOrTarget::Target,
    };
    assert_eq!(toward_target.get_node_id(), 20);
    let reversed = toward_target.reverse();
    assert_eq!(reversed.get_node_id(), 10);
    let p = toward_target.to_point();
    assert_eq!(p.node_id, 20);
    assert_eq!(p.lng, 1000);
    assert_eq!(p.length, 100_000);
}

#[test]
fn test_distance_bound_is_a_metric_on_samples() {
    let d_ab = dist_lb(0, 0, 1000, 2000);
    let d_ba = dist_lb(1000, 2000, 0, 0);
    assert_eq!(d_ab, d_ba);
    assert_eq!(dist_lb(5, 7, 5, 7), 0);
    let d_ac = dist_lb(0, 0, 4000, 0);
    let d_cb = dist_lb(4000, 0, 1000, 2000);
    assert!(d_ac <= d_ab + dist_lb(1000, 2000, 4000, 0));
    assert!(d_ab <= d_ac + d_cb);
    // 2000 microdegrees of latitude dominate 1000 of longitude.
    assert_eq!(d_ab, 111 * 2000);
}

#[test]
fn test_saturating_cost_addition() {
    assert_eq!(sat_add(2, 3), 5);
    assert_eq!(sat_add(u64::MAX - 1, 1), u64::MAX);
    assert_eq!(sat_add(u64::MAX, 7), u64::MAX);
}

#[test]
fn test_open_set_pops_cheapest_first_inserted() {
    let e = plain_edge(1);
    let a = EdgePoint {
        edge: plain_edge(1),
        direction: SourceOrTarget::Target,
    };
    let b = EdgePoint {
        edge: plain_edge(2),
        direction: SourceOrTarget::Target,
    };
    let c = EdgePoint {
        edge: plain_edge(3),
        direction: SourceOrTarget::Target,
    };
    let _ = e;
    let mut open = OpenSet::new();
    open.push(7, a);
    open.push(3, b);
    open.push(3, c);
    // Ties are broken deterministically: the earliest-inserted of the
    // cheapest entries leaves first.
    let first = open.pop_min().unwrap();
    assert_eq!(first.0, 3);
    assert_eq!(first.1.edge.id, 2);
    let second = open.pop_min().unwrap();
    assert_eq!(second.0, 3);
    assert_eq!(second.1.edge.id, 3);
    let third = open.pop_min().unwrap();
    assert_eq!(third.0, 7);
    assert!(open.pop_min().is_none());
}

#[test]
fn test_nodes_of_ways_exact_set() {
    let mut on_way = plain_edge(1);
    on_way.way_id = 5;
    let mut off_way = plain_edge(2);
    off_way.way_id = 6;
    off_way.source = 30;
    off_way.target = 40;
    let edges = vec![on_way, off_way];
    let affected = nodes_of_ways(&edges, &vec![5]);
    assert!(affected.contains(&10));
    assert!(affected.contains(&20));
    assert!(!affected.contains(&30));
    assert!(!affected.contains(&40));
}
