//! Backdoor detection for binary programs, built around a metamorphic oracle.
//!
//! The library ingests execution traces produced by coverage-guided fuzzers,
//! groups the traces observed during an initial collection phase into behavior
//! clusters, and then classifies every later trace as benign or
//! backdoor-triggering by comparing its distance to the most similar cluster
//! against that cluster's own internal spread.

use vstd::prelude::*;

pub mod clustering;
pub mod criterion;
pub mod decision;
pub mod distance_metric;
pub mod config;
pub mod error;
pub mod fuzzer;
pub mod oracle;
pub mod pipeline;
pub mod text;
pub mod trace;
pub mod tui;

verus! {

} // verus!
