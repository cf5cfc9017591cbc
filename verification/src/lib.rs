//! An interactive symbolic-algebra kernel.
//!
//! An arithmetic expression lives in a mutable graph of nodes; handles into
//! the graph let a session navigate to a subtree, discover which rewrite
//! rules apply there, and apply one in place while keeping an append-only
//! history of earlier states.  Values are tiered (`Natural`, `Zahl`, `Real`)
//! with automatic widening and constant folding.

pub mod values;
pub mod graph;
pub mod tower;
pub mod eval;
pub mod render;
pub mod rules;
pub mod session;
