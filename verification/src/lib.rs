//! Verified core of a four-way-intersection arbitration engine.
//!
//! The library decides, for autonomous vehicles crossing a shared
//! intersection, which of two geometrically conflicting vehicles yields,
//! and how many vehicles may occupy a conflict zone at once.  It owns
//! three pieces of state: a pairwise winner cache, a reference-point
//! ownership cache, and a per-zone capacity ledger.  The surrounding
//! simulation loop (spawning, dead-reckoning motion, rendering) lives
//! outside the library and hands it plain values.

pub mod types;
pub mod geometry;
pub mod memory;
pub mod ledger;
pub mod collision;
pub mod spawn;
pub mod arbiter;

use vstd::prelude::*;

verus! {

/// Simulation statistics the arbitration core maintains: the number of
/// close calls, i.e. events where a vehicle was forced to yield because
/// of a detected overlap.
pub struct Stats {
    pub close_call: u64,
}

impl Default for Stats {
    fn default() -> (s: Stats)
        ensures
            s.close_call == 0,
    {
        Stats { close_call: 0 }
    }
}

} // verus!
