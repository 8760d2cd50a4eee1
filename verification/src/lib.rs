//! A toroidal two-state cellular automaton (Conway's Game of Life):
//! a grid of boolean cells, a work partitioner that hands out
//! non-overlapping row ranges, a step engine applying the B3/S23 rule,
//! and a triple-buffer pipeline coordinator for a render loop.

pub mod chunks;
pub mod error;
pub mod model;
pub mod pipeline;
pub mod world;
