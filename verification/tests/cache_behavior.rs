use veloinfo::cost::get_h_moyen;
use veloinfo::edge::Edge;
use veloinfo::engine::RoutingEngine;
use veloinfo::score::ConsensusScore;
use veloinfo::search::NullSink;
use veloinfo::store::{nodes_of_ways, InMemoryStore};
use veloinfo::tags::Tags;

fn residential() -> Tags {
    let pairs = vec![("highway".to_string(), "residential".to_string())];
    Tags::classify(&pairs)
}

fn edge(id: i64, source: i64, target: i64, way_id: i64) -> Edge {
    Edge {
        id,
        source,
        target,
        lon1: id * 1000,
        lat1: 0,
        lon2: id * 1000 + 1000,
        lat2: 0,
        score: ConsensusScore::Unknown,
        way_id,
        length: 100_000,
        tags: residential(),
        road_work: false,
        is_conditionally_closed: false,
        in_bicycle_route: false,
        snow: false,
        elevation_start: None,
        elevation_end: None,
    }
}

#[test]
fn test_cache_hit_skips_the_store() {
    let edges = vec![edge(1, 1, 2, 1), edge(2, 2, 3, 2)];
    let mut engine = RoutingEngine::new(InMemoryStore::new(edges), 100);
    assert_eq!(engine.store.query_count(), 0);
    let first = engine.get_neighbors(2);
    assert_eq!(engine.store.query_count(), 1);
    let second = engine.get_neighbors(2);
    assert_eq!(engine.store.query_count(), 1);
    assert_eq!(first.len(), 2);
    assert_eq!(second.len(), 2);
}

#[test]
fn test_remove_forces_requery() {
    let edges = vec![edge(1, 1, 2, 1), edge(2, 2, 3, 2)];
    let mut engine = RoutingEngine::new(InMemoryStore::new(edges), 100);
    engine.get_neighbors(2);
    engine.get_neighbors(2);
    assert_eq!(engine.store.query_count(), 1);
    engine.clear_nodes_cache(&vec![2]);
    engine.get_neighbors(2);
    assert_eq!(engine.store.query_count(), 2);
}

#[test]
fn test_clear_empties_the_cache() {
    let edges = vec![edge(1, 1, 2, 1), edge(2, 2, 3, 2)];
    let mut engine = RoutingEngine::new(InMemoryStore::new(edges), 100);
    engine.get_neighbors(1);
    engine.get_neighbors(2);
    engine.get_neighbors(3);
    assert!(engine.cache.len() > 0);
    engine.clear_all_cache();
    assert_eq!(engine.cache.len(), 0);
}

#[test]
fn test_eviction_drops_oldest_inserted() {
    let edges = vec![edge(1, 1, 2, 1), edge(2, 2, 3, 2), edge(3, 3, 4, 3)];
    let mut engine = RoutingEngine::new(InMemoryStore::new(edges), 2);
    engine.get_neighbors(1);
    engine.get_neighbors(2);
    assert_eq!(engine.store.query_count(), 2);
    // A third node exceeds the capacity of two and evicts node 1, the
    // oldest-inserted key.
    engine.get_neighbors(3);
    assert_eq!(engine.store.query_count(), 3);
    engine.get_neighbors(2);
    assert_eq!(engine.store.query_count(), 3);
    engine.get_neighbors(1);
    assert_eq!(engine.store.query_count(), 4);
}

#[test]
fn test_store_failure_is_not_cached() {
    let edges = vec![edge(1, 1, 2, 1)];
    let mut engine = RoutingEngine::new(InMemoryStore::new(edges), 100);
    engine.store.set_failing(true);
    let r = engine.get_neighbors(1);
    assert_eq!(r.len(), 0);
    assert_eq!(engine.store.query_count(), 1);
    // Once the store recovers, the next lookup queries it again instead
    // of serving the degraded answer.
    engine.store.set_failing(false);
    let r = engine.get_neighbors(1);
    assert_eq!(r.len(), 1);
    assert_eq!(engine.store.query_count(), 2);
}

#[test]
fn test_overlapping_updates_invalidate_the_union() {
    // Way 71 runs over nodes 1-2-3, way 72 over nodes 3-4: node 3 is
    // touched by both.
    let edges = vec![
        edge_on_way(1, 1, 2, 71),
        edge_on_way(2, 2, 3, 71),
        edge_on_way(3, 3, 4, 72),
    ];
    let mut engine = RoutingEngine::new(InMemoryStore::new(edges.clone()), 100);
    for n in 1..=4 {
        engine.get_neighbors(n);
    }
    assert_eq!(engine.store.query_count(), 4);

    // Two near-simultaneous updates, one per way: each maps its way ids
    // to the affected node set and invalidates it; the union of both
    // sets must be gone afterwards.
    let first = nodes_of_ways(&edges, &vec![71]);
    engine.clear_nodes_cache(&first);
    let second = nodes_of_ways(&edges, &vec![72]);
    engine.clear_nodes_cache(&second);

    for n in 1..=4 {
        engine.get_neighbors(n);
    }
    assert_eq!(engine.store.query_count(), 8);
}

fn edge_on_way(id: i64, source: i64, target: i64, way_id: i64) -> Edge {
    edge(id, source, target, way_id)
}

#[test]
fn test_reload_warms_the_cache() {
    let edges = vec![edge(1, 1, 2, 1), edge(2, 2, 3, 2)];
    let mut engine = RoutingEngine::new(InMemoryStore::new(edges), 100);
    engine.clear_cache_and_reload(&vec![(1, 3)], &get_h_moyen());
    let warmed = engine.cache.len();
    assert!(warmed > 0);
    // The warmed nodes answer without touching the store again.
    let before = engine.store.query_count();
    engine.get_neighbors(1);
    engine.get_neighbors(2);
    engine.get_neighbors(3);
    assert_eq!(engine.store.query_count(), before);
    // A null sink is wired in by the reload, so no observer was needed.
    let mut sink = NullSink {};
    let points = engine
        .a_star_bidirectional(1, 3, &get_h_moyen(), &mut sink)
        .unwrap();
    assert_eq!(points.first().unwrap().node_id, 1);
}
