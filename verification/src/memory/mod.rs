//! Thin hierarchical-ready session memory: durable turns, a recent-N window,
//! a rolling text summary, topic chunks and the per-turn context compiler.

pub mod chunk;
pub mod compile;
pub mod pending;
pub mod session;
pub mod summary;
pub mod turn;
