//! Core of a host telemetry agent: a catalog of named statistics, per-source
//! sampler configuration, a metrics registry of counters, gauges and
//! distributions, a parser for `/proc`-style nested key/value tables, and the
//! decision logic of the samplers themselves (kernel-probe attachment,
//! rate-limited table drains, and the per-tick sampling pass).
//!
//! Everything here is plain sequential logic over plain values; the
//! surrounding process supplies file contents, clock readings and kernel-probe
//! snapshots, and owns all I/O and task scheduling.

pub mod config;
pub mod error;
pub mod parse;
pub mod probe;
pub mod registry;
pub mod sampler;
pub mod stat;

use vstd::prelude::*;

verus! {

/// Scale factor used when a probe table's bucket values (microseconds) are
/// folded into a distribution that is kept in nanoseconds.
pub const BUCKET_SCALE: u64 = 1000;

} // verus!
