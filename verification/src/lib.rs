//! A tie-aware ranking engine over per-player attribution records.
//!
//! Given an unordered collection of `(player, measured value)` pairs for one
//! measurement kind, the engine produces a fully ordered sequence ranked by
//! the standard competition ranking law (equal values share a rank, the next
//! distinct value's rank is its 1-based position), and serves bounded windows
//! of that sequence for display.

pub mod model;
pub mod ranking;
pub mod laws;
