//! Verified core of the BloodOrchid simulation pipeline: the boundary that owns
//! simulation state, the invariant checks over what the pipeline did, the
//! transformation to geometry, execution traces, the structural node store and
//! its message handling.
use vstd::prelude::*;

pub mod boundary;
pub mod channels;
pub mod clock;
pub mod cve;
pub mod ieee754;
pub mod keyed;
pub mod observability;
pub mod pipeline;
pub mod simulation;
pub mod structural;
pub mod telemetry;
pub mod text;

verus! {
} // verus!
