//! A host-metrics agent: which metrics each cycle samples, how their values are
//! written, and under which topics they are published.
pub mod config;
pub mod publisher;
pub mod sample;
pub mod text;
