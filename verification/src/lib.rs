//! A bounded-horizon route planner over a terrain height grid.
//!
//! The terrain is a rectangular grid of elevations. Movement between
//! 4-connected cells is priced per strategy (ascend or descend) from the
//! directional slope; a strategy's cost to the best reachable lift is a
//! shortest-path query over a freshly built weighted graph, and a
//! bounded-depth exhaustive search picks the cheapest strategy sequence.

pub mod errors;
pub mod graph;
pub mod planner;
pub mod strategy;
pub mod topography;
pub mod world;
