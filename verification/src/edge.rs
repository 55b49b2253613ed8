//! The graph's edges and their direction-bound views.
//!
//! An `Edge` is an undirected record from the edge store. An `EdgePoint`
//! binds it to a travel direction: toward the source endpoint or toward the
//! target endpoint. Search states, cache entries and cost evaluations all
//! work on `EdgePoint`s; the pair (edge id, direction) is their identity.

use crate::geom::{spec_dist_lb, valid_coord, Point};
use crate::score::ConsensusScore;
use crate::tags::Tags;
use vstd::prelude::*;

verus! {

/// Upper bound on an edge's length: 1000 km in millimeters. Together with
/// the bound on cost factors this keeps every traversal cost well under the
/// saturation threshold of the search's accumulated costs.
pub const LENGTH_LIMIT: u64 = 1_000_000_000;

/// Elevations lie within 10 km of sea level, in meters.
pub const ELEVATION_LIMIT: i64 = 10_000;

/// An undirected edge as the store hands it out: endpoints, geometry,
/// classified tags, and the shared facts the cost model consumes.
#[derive(Clone, Copy, Debug)]
pub struct Edge {
    /// The edge's identity.
    pub id: i64,
    /// Node id of the source endpoint.
    pub source: i64,
    /// Node id of the target endpoint.
    pub target: i64,
    /// Coordinate of the source endpoint, in microdegrees.
    pub lon1: i64,
    pub lat1: i64,
    /// Coordinate of the target endpoint, in microdegrees.
    pub lon2: i64,
    pub lat2: i64,
    /// Consensus score of the way this edge belongs to.
    pub score: ConsensusScore,
    /// The way this edge belongs to.
    pub way_id: i64,
    /// Length in millimeters.
    pub length: u64,
    /// The classified tags.
    pub tags: Tags,
    /// Road work currently intersects this edge.
    pub road_work: bool,
    /// The edge carries a seasonal conditional-closure fact.
    pub is_conditionally_closed: bool,
    /// The edge is part of a signed bicycle route.
    pub in_bicycle_route: bool,
    /// The edge's city is currently snow-flagged.
    pub snow: bool,
    /// Elevation at the source endpoint, in meters, when known.
    pub elevation_start: Option<i64>,
    /// Elevation at the target endpoint, in meters, when known.
    pub elevation_end: Option<i64>,
}

impl Edge {
    /// A well-formed edge: coordinates on the globe, a length that is
    /// bounded and no shorter than the heuristic's distance between its
    /// endpoints, a well-formed score, and bounded elevations.
    pub open spec fn wf(self) -> bool {
        &&& valid_coord(self.lon1 as int, self.lat1 as int)
        &&& valid_coord(self.lon2 as int, self.lat2 as int)
        &&& self.length <= LENGTH_LIMIT
        &&& spec_dist_lb(self.lon1 as int, self.lat1 as int, self.lon2 as int, self.lat2 as int)
            <= self.length
        &&& self.score.wf()
        &&& (self.elevation_start matches Some(e) ==> -ELEVATION_LIMIT <= e <= ELEVATION_LIMIT)
        &&& (self.elevation_end matches Some(e) ==> -ELEVATION_LIMIT <= e <= ELEVATION_LIMIT)
    }
}

/// The travel direction an `EdgePoint` binds: toward the edge's source
/// endpoint or toward its target endpoint.
#[derive(Clone, Copy, Debug, PartialEq, Eq, Structural)]
pub enum SourceOrTarget {
    Source,
    Target,
}

/// A directed traversal: an edge bound to a travel direction. Immutable
/// once constructed.
#[derive(Clone, Copy, Debug)]
pub struct EdgePoint {
    pub edge: Edge,
    pub direction: SourceOrTarget,
}

impl EdgePoint {
    /// Well-formed when the edge is.
    pub open spec fn wf(self) -> bool {
        self.edge.wf()
    }

    /// The node this traversal arrives at.
    pub open spec fn spec_node_id(self) -> i64 {
        match self.direction {
            SourceOrTarget::Source => self.edge.source,
            SourceOrTarget::Target => self.edge.target,
        }
    }

    /// The node this traversal departs from.
    pub open spec fn spec_origin_node_id(self) -> i64 {
        match self.direction {
            SourceOrTarget::Source => self.edge.target,
            SourceOrTarget::Target => self.edge.source,
        }
    }

    /// Longitude of the endpoint this traversal arrives at.
    pub open spec fn spec_lng(self) -> i64 {
        match self.direction {
            SourceOrTarget::Source => self.edge.lon1,
            SourceOrTarget::Target => self.edge.lon2,
        }
    }

    /// Latitude of the endpoint this traversal arrives at.
    pub open spec fn spec_lat(self) -> i64 {
        match self.direction {
            SourceOrTarget::Source => self.edge.lat1,
            SourceOrTarget::Target => self.edge.lat2,
        }
    }

    /// Longitude of the endpoint this traversal departs from.
    pub open spec fn spec_origin_lng(self) -> i64 {
        match self.direction {
            SourceOrTarget::Source => self.edge.lon2,
            SourceOrTarget::Target => self.edge.lon1,
        }
    }

    /// Latitude of the endpoint this traversal departs from.
    pub open spec fn spec_origin_lat(self) -> i64 {
        match self.direction {
            SourceOrTarget::Source => self.edge.lat2,
            SourceOrTarget::Target => self.edge.lat1,
        }
    }

    /// The identity of a traversal: its edge's id and its direction, as the
    /// key the search's maps use.
    pub open spec fn spec_key(self) -> (i64, bool) {
        (self.edge.id, self.direction is Source)
    }

    /// This traversal moves toward the source endpoint, that is, against
    /// the edge's natural orientation.
    pub open spec fn spec_toward_source(self) -> bool {
        self.direction is Source
    }

    /// The same edge bound to the opposite direction.
    pub open spec fn spec_reverse(self) -> EdgePoint {
        EdgePoint {
            edge: self.edge,
            direction: match self.direction {
                SourceOrTarget::Source => SourceOrTarget::Target,
                SourceOrTarget::Target => SourceOrTarget::Source,
            },
        }
    }

    /// Computes `spec_reverse`.
    pub fn reverse(&self) -> (r: EdgePoint)
        ensures
            r == self.spec_reverse(),
    {
        let new_direction = match self.direction {
            SourceOrTarget::Source => SourceOrTarget::Target,
            SourceOrTarget::Target => SourceOrTarget::Source,
        };
        EdgePoint { edge: self.edge, direction: new_direction }
    }

    /// The node this traversal arrives at.
    pub fn get_node_id(&self) -> (n: i64)
        ensures
            n == self.spec_node_id(),
    {
        match self.direction {
            SourceOrTarget::Source => self.edge.source,
            SourceOrTarget::Target => self.edge.target,
        }
    }

    /// The key of this traversal for the search's maps.
    pub fn key(&self) -> (k: (i64, bool))
        ensures
            k == self.spec_key(),
    {
        (self.edge.id, matches!(self.direction, SourceOrTarget::Source))
    }

    /// Binds an edge to the direction that leads away from `node`: an edge
    /// whose source is `node` is traversed toward its target, and the other
    /// way around.
    pub fn away_from(edge: Edge, node: i64) -> (r: EdgePoint)
        ensures
            r.edge == edge,
            edge.source == node ==> r.direction == SourceOrTarget::Target,
            edge.source != node ==> r.direction == SourceOrTarget::Source,
            edge.source == node || edge.target == node ==> r.spec_origin_node_id() == node,
    {
        if edge.source == node {
            EdgePoint { edge, direction: SourceOrTarget::Target }
        } else {
            EdgePoint { edge, direction: SourceOrTarget::Source }
        }
    }

    /// The waypoint this traversal contributes to a route: the coordinate
    /// and node arrived at, the way, and the edge's length as the increment
    /// since the previous waypoint.
    pub fn to_point(&self) -> (p: Point)
        ensures
            p == self.spec_point(),
    {
        match self.direction {
            SourceOrTarget::Source => Point {
                lng: self.edge.lon1,
                lat: self.edge.lat1,
                way_id: self.edge.way_id,
                node_id: self.edge.source,
                length: self.edge.length,
            },
            SourceOrTarget::Target => Point {
                lng: self.edge.lon2,
                lat: self.edge.lat2,
                way_id: self.edge.way_id,
                node_id: self.edge.target,
                length: self.edge.length,
            },
        }
    }

    /// What `to_point` returns.
    pub open spec fn spec_point(self) -> Point {
        Point {
            lng: self.spec_lng(),
            lat: self.spec_lat(),
            way_id: self.edge.way_id,
            node_id: self.spec_node_id(),
            length: self.edge.length,
        }
    }
}

} // verus!
