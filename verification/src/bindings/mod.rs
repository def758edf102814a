//! Deterministic binding and golden-fixture generation: the text rules
//! shared by every protocol domain. Each domain's renderer, which reads that
//! domain's protocol types to build its declarations and fixtures, belongs
//! with those types and feeds these rules.

pub mod bridge;
pub mod cli;
pub mod generation;
