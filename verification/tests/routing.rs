use veloinfo::cost::get_h_moyen;
use veloinfo::edge::Edge;
use veloinfo::engine::RoutingEngine;
use veloinfo::score::ConsensusScore;
use veloinfo::search::{CountingSink, NullSink, RouteError};
use veloinfo::store::{find_closest_node, InMemoryStore};
use veloinfo::tags::Tags;

fn residential() -> Tags {
    let pairs = vec![("highway".to_string(), "residential".to_string())];
    Tags::classify(&pairs)
}

fn banned() -> Tags {
    let pairs = vec![
        ("highway".to_string(), "residential".to_string()),
        ("bicycle".to_string(), "no".to_string()),
    ];
    Tags::classify(&pairs)
}

fn edge(id: i64, source: i64, target: i64, c1: (i64, i64), c2: (i64, i64), length: u64,
    way_id: i64, tags: Tags) -> Edge {
    Edge {
        id,
        source,
        target,
        lon1: c1.0,
        lat1: c1.1,
        lon2: c2.0,
        lat2: c2.1,
        score: ConsensusScore::Unknown,
        way_id,
        length,
        tags,
        road_work: false,
        is_conditionally_closed: false,
        in_bicycle_route: false,
        snow: false,
        elevation_start: None,
        elevation_end: None,
    }
}

/// A straight chain of `n` nodes with ids 1..=n along the equator.
fn chain(n: i64) -> Vec<Edge> {
    let mut edges = Vec::new();
    for i in 1..n {
        edges.push(edge(
            i,
            i,
            i + 1,
            ((i - 1) * 1000, 0),
            (i * 1000, 0),
            100_000,
            i,
            residential(),
        ));
    }
    edges
}

fn engine_over(edges: Vec<Edge>) -> RoutingEngine<InMemoryStore> {
    RoutingEngine::new(InMemoryStore::new(edges), 1000)
}

#[test]
fn test_fast_route() {
    // The regression fixture: a known test graph joining these two nodes.
    let start: i64 = 321801851;
    let end: i64 = 1764306722;
    let edges = vec![
        edge(1, start, 77, (0, 0), (1000, 0), 100_000, 1, residential()),
        edge(2, 77, 78, (1000, 0), (2000, 0), 100_000, 2, residential()),
        edge(3, 78, end, (2000, 0), (3000, 0), 100_000, 3, residential()),
    ];
    let mut engine = engine_over(edges);
    let mut sink = NullSink {};
    let points = engine
        .a_star_bidirectional(start, end, &get_h_moyen(), &mut sink)
        .unwrap();
    assert_eq!(start, points.first().unwrap().node_id);
    assert_eq!(end, points.last().unwrap().node_id);
}

#[test]
fn test_route_waypoints_are_connected() {
    let mut engine = engine_over(chain(6));
    let mut sink = NullSink {};
    let points = engine
        .a_star_bidirectional(1, 6, &get_h_moyen(), &mut sink)
        .unwrap();
    assert_eq!(points.first().unwrap().node_id, 1);
    assert_eq!(points.last().unwrap().node_id, 6);
    // One waypoint per traversal: the seed plus the five chain edges.
    assert!(points.len() >= 6);
    for p in &points {
        assert!(p.length == 100_000);
    }
}

#[test]
fn test_no_route_on_disconnected_graph() {
    // Two components: 1-2-3 and 10-11; no path, an empty list, promptly.
    let mut edges = chain(3);
    edges.push(edge(50, 10, 11, (50_000, 0), (51_000, 0), 100_000, 50, residential()));
    let mut engine = engine_over(edges);
    let mut sink = NullSink {};
    let points = engine
        .a_star_bidirectional(1, 11, &get_h_moyen(), &mut sink)
        .unwrap();
    assert_eq!(points.len(), 0);
}

#[test]
fn test_identical_calls_identical_routes() {
    let mut engine = engine_over(chain(8));
    let mut sink = NullSink {};
    let first = engine
        .a_star_bidirectional(1, 8, &get_h_moyen(), &mut sink)
        .unwrap();
    let second = engine
        .a_star_bidirectional(1, 8, &get_h_moyen(), &mut sink)
        .unwrap();
    assert_eq!(first, second);
}

#[test]
fn test_unknown_node_is_not_found() {
    let mut engine = engine_over(chain(3));
    let mut sink = NullSink {};
    let r = engine.a_star_bidirectional(999, 2, &get_h_moyen(), &mut sink);
    assert_eq!(r, Err(RouteError::NodeNotFound(999)));
    let r = engine.a_star_bidirectional(1, 999, &get_h_moyen(), &mut sink);
    assert_eq!(r, Err(RouteError::NodeNotFound(999)));
}

#[test]
fn test_unavailable_store_reads_as_not_found() {
    let mut engine = engine_over(chain(3));
    engine.store.set_failing(true);
    let mut sink = NullSink {};
    let r = engine.a_star_bidirectional(1, 3, &get_h_moyen(), &mut sink);
    assert_eq!(r, Err(RouteError::NodeNotFound(1)));
}

#[test]
fn test_banned_edge_avoided() {
    // A direct but bicycle-banned edge from 1 to 2, and a finite-cost
    // detour over node 3; the default profile takes the detour.
    let detour_a = edge(10, 1, 3, (0, 0), (1000, 1000), 150_000, 10, residential());
    let detour_b = edge(11, 3, 2, (1000, 1000), (2000, 0), 150_000, 11, residential());
    let direct = edge(12, 1, 2, (0, 0), (2000, 0), 160_000, 99, banned());
    let mut engine = engine_over(vec![detour_a, detour_b, direct]);
    let mut sink = NullSink {};
    let points = engine
        .a_star_bidirectional(1, 2, &get_h_moyen(), &mut sink)
        .unwrap();
    assert_eq!(points.first().unwrap().node_id, 1);
    assert_eq!(points.last().unwrap().node_id, 2);
    for p in points.iter().skip(1) {
        assert_ne!(p.way_id, 99);
    }
}

#[test]
fn test_lowered_score_diverts_route() {
    // Same geometry; once the direct way's score drops to near closed,
    // the detour wins.
    let detour_a = edge(10, 1, 3, (0, 0), (1000, 1000), 150_000, 10, residential());
    let detour_b = edge(11, 3, 2, (1000, 1000), (2000, 0), 150_000, 11, residential());
    let mut direct = edge(12, 1, 2, (0, 0), (2000, 0), 160_000, 99, residential());

    let mut engine = engine_over(vec![detour_a, detour_b, direct]);
    let mut sink = NullSink {};
    let points = engine
        .a_star_bidirectional(1, 2, &get_h_moyen(), &mut sink)
        .unwrap();
    assert!(points.iter().any(|p| p.way_id == 99));

    direct.score = ConsensusScore::Rated(10);
    let mut engine = engine_over(vec![detour_a, detour_b, direct]);
    let points = engine
        .a_star_bidirectional(1, 2, &get_h_moyen(), &mut sink)
        .unwrap();
    for p in points.iter().skip(1) {
        assert_ne!(p.way_id, 99);
    }
}

#[test]
fn test_disconnected_sink_cancels_search() {
    let mut engine = engine_over(chain(60));
    let mut sink = CountingSink {
        segments: Vec::new(),
        allow: 0,
    };
    let r = engine.a_star_bidirectional(1, 60, &get_h_moyen(), &mut sink);
    assert_eq!(r, Err(RouteError::Cancelled));
}

#[test]
fn test_sink_observes_without_changing_the_route() {
    let mut engine = engine_over(chain(60));
    let mut null = NullSink {};
    let without = engine
        .a_star_bidirectional(1, 60, &get_h_moyen(), &mut null)
        .unwrap();
    let mut engine = engine_over(chain(60));
    let mut sink = CountingSink {
        segments: Vec::new(),
        allow: u64::MAX,
    };
    let with = engine
        .a_star_bidirectional(1, 60, &get_h_moyen(), &mut sink)
        .unwrap();
    assert_eq!(without, with);
    assert!(sink.segments.len() > 0);
}

#[test]
fn test_find_closest_node_prefers_nearest_routable() {
    let near_but_banned = edge(1, 21, 22, (100, 0), (1000, 0), 100_000, 1, {
        let pairs = vec![("highway".to_string(), "motorway".to_string())];
        Tags::classify(&pairs)
    });
    let routable_close = edge(2, 23, 24, (2000, 0), (3000, 0), 100_000, 2, residential());
    let routable_far = edge(3, 25, 26, (9000, 0), (9900, 0), 100_000, 3, residential());
    let edges = vec![near_but_banned, routable_close, routable_far];
    assert_eq!(find_closest_node(&edges, 0, 0), Ok(23));
}

#[test]
fn test_find_closest_node_respects_radius() {
    // 1 km radius: an edge 30000 microdegrees of longitude away lies at
    // 50 mm each, beyond reach.
    let lonely = edge(1, 31, 32, (30_000, 0), (31_000, 0), 100_000, 1, residential());
    let r = find_closest_node(&vec![lonely], 0, 0);
    assert_eq!(r, Err(RouteError::NoNodeNear { lng: 0, lat: 0 }));
}

#[test]
fn test_find_closest_node_honors_bicycle_override() {
    let footway_pairs = vec![("highway".to_string(), "footway".to_string())];
    let footway = edge(1, 41, 42, (100, 0), (1000, 0), 100_000, 1,
        Tags::classify(&footway_pairs));
    assert!(find_closest_node(&vec![footway], 0, 0).is_err());
    let override_pairs = vec![
        ("highway".to_string(), "footway".to_string()),
        ("bicycle".to_string(), "yes".to_string()),
    ];
    let with_override = edge(1, 41, 42, (100, 0), (1000, 0), 100_000, 1,
        Tags::classify(&override_pairs));
    assert_eq!(find_closest_node(&vec![with_override], 0, 0), Ok(41));
}
