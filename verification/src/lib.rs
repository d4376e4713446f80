//! Measures how build-configuration knobs affect build latency.
//!
//! The crate has two halves. The toggle engine flips individual build
//! knobs (dependency optimization, alternate code generator, alternate
//! linker, parallel front end) inside structured configuration files
//! without disturbing unrelated settings. The matrix orchestrator walks
//! a fixed path through the knob-state lattice and emits one timed
//! measurement per visited state and build scenario.

use vstd::prelude::*;

pub mod bench;
pub mod doc;
pub mod knobs;
pub mod laws;
pub mod matrix;
pub mod text;
pub mod tree;

verus! {

/// Everything that can go wrong during a matrix run: the two
/// configuration-file failures, the failed rewrite, and the two ways the
/// external benchmarking process can let us down.
#[derive(Clone, Copy, Debug, PartialEq, Eq, Structural)]
pub enum RunError {
    ConfigFileUnreadable,
    MalformedConfig,
    ConfigWriteFailed,
    ProcessLaunchFailed,
    ProcessExitedNonZero,
}

} // verus!
