//! The route panel: what a route request hands back for rendering.
//!
//! The engine's waypoints are serialized by the caller; this type only
//! carries the serialized coordinates, or the message shown when no route
//! could be computed — a normal outcome, rendered as a "no route" message
//! rather than an internal error.

use vstd::prelude::*;

verus! {

/// The rendering payload of a route request: serialized coordinates and
/// an error message, at most one of them meaningful.
#[derive(Clone, Debug, PartialEq, Eq)]
pub struct RoutePanel {
    /// The route's coordinates, serialized; `[]` when there is none.
    pub coordinates: String,
    /// The message to show instead of a route; empty when there is one.
    pub error: String,
}

impl RoutePanel {
    /// A panel carrying no route, only a message.
    pub fn error(error: String) -> (p: RoutePanel)
        ensures
            p.error@ == error@,
            p.coordinates@ == "[]"@,
    {
        RoutePanel { coordinates: "[]".to_owned(), error }
    }
}

} // verus!
