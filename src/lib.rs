//! Workload generation for measuring a dynamic weighted-sampling index.
//!
//! The library drives five mutation patterns against a
//! `DynamicWeightedIndex<u64>` while keeping a shadow vector of the current
//! absolute weights, and states each step of each pattern as a contract.

pub mod config;
pub mod laws;
pub mod sampler;
pub mod sums;
pub mod workload;
