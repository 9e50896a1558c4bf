//! A script-configurable desktop overlay surface.
//!
//! The library holds the verified core of a compositor-anchored overlay
//! panel: the surface configuration and its validation, the input-event
//! aggregation queue, the surface-session state machine with its frame
//! scheduler, the shared pixel-buffer pool, and a bounds-checked software
//! canvas that a per-frame script callback draws on.  Protocol I/O, the
//! script host and process setup live outside the library and talk to it
//! through plain values.

use vstd::prelude::*;

pub mod config;
pub mod events;
pub mod pool;
pub mod canvas;
pub mod session;

verus! {

} // verus!
