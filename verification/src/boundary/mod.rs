//! The boundary layer: the sole owner of simulation state, and the checks that
//! guard what enters it.
pub mod invariants;
pub mod payload;
pub mod runtime;
pub mod state;
