//! Randomized, constraint-valid completion orders over a progression graph.
//!
//! A progression graph is a fixed set of kingdoms connected by prerequisite
//! edges; each kingdom holds a catalog of moons with prerequisites of their
//! own.  The scheduler walks the graph, surfaces moons as they become
//! available, and commits them in a randomized order that always respects
//! every prerequisite and threshold.

pub mod draw;
pub mod driver;
pub mod kingdom;
pub mod moon;
mod moon_table;
pub mod state;
