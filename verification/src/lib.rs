//! A bicycle routing engine over a street and bikeway graph.
//!
//! The engine computes bicycle-friendly routes: a directed-edge cost model
//! blends infrastructure type, crowd-submitted consensus scores, road work,
//! seasonal closures and terrain slope; an admissible great-circle heuristic
//! orders a bidirectional best-first search; a neighbor cache makes repeated
//! searches over the same graph region fast.
//!
//! All quantities are integers: lengths and distances in millimeters,
//! coordinates in microdegrees, cost factors in thousandths (1000 is the
//! neutral factor 1.0), consensus scores in thousandths of the unit interval.

pub mod cache;
pub mod cost;
pub mod edge;
pub mod elevation;
pub mod engine;
pub mod geom;
pub mod laws;
pub mod route_panel;
pub mod score;
pub mod search;
pub mod store;
pub mod tags;

use vstd::prelude::*;

verus! {

} // verus!
