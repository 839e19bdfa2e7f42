//! Coordination core of a two-thread interactive application: a fixed-cadence
//! simulation that commits immutable snapshots, keyboard callbacks that feed a
//! shared counter, cooperative shutdown, and a per-frame debug overlay.
//!
//! Everything here is sequential: each function is the body of one critical
//! section, and the caller supplies the locks and the threads.

pub mod counter;
pub mod debug;
pub mod eventhandler;
pub mod graphics;
pub mod input;
pub mod label;
pub mod shutdown;
pub mod simulation;
pub mod state;
