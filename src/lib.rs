//! Heuristic password strength: a clamped score, a qualitative label, a
//! linear entropy estimate and a synthetic benchmark workload.

pub mod benchmark;
pub mod score;
pub mod text;

