//! A micro-benchmark harness that weighs a dense bit-packed boolean matrix
//! against a hierarchical block-compressed structure: workload generation,
//! the capability contract both representations satisfy, the trial protocol
//! and the result tables.

pub mod adapter;
pub mod clock;
pub mod errors;
pub mod k2;
pub mod render;
pub mod rng;
pub mod runner;
pub mod workload;
