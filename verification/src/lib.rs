//! A single-screen system dashboard library: turns a metrics snapshot
//! (CPU, memory, process list, host identity) into a deterministic frame
//! plan — layout regions, gauge fills and labels, a ranked process table —
//! and drives the draw/input cycle as a verified state machine.

pub mod format;
pub mod layout;
pub mod percent;
pub mod rank;
pub mod render;
pub mod snapshot;
pub mod state;
