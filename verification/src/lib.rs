//! A digital logic circuit engine: tri-state signal algebra, an id-indexed
//! gate graph, a memoized cycle-safe evaluator, and a bounded fixed-point
//! propagation step for sequential elements (latches, flip-flops, clocks).

pub mod circuit;
pub mod gate;
pub mod netlist;
pub mod signal;
pub mod table;
pub mod wire;
