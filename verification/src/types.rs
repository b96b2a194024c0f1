//! Basic enumerations shared by the arbitration core and its callers.

use vstd::prelude::*;

verus! {

/// Top-level state of the surrounding application.
#[derive(Debug, Clone, PartialEq, Eq, Structural)]
pub enum AppState {
    Running,
    Paused,
    StatsDisplay,
    Exit,
}

/// Compass direction a vehicle enters the intersection from.
#[derive(Debug, Clone, Copy, PartialEq, Eq, Structural)]
pub enum Direction {
    North,
    South,
    East,
    West,
}

/// The route a vehicle follows through the intersection.
#[derive(Debug, Clone, Copy, PartialEq, Eq, Structural)]
pub enum Route {
    Right,
    Straight,
    Left,
}

/// Conflict tag: which lane-crossing movement a vehicle's planned path
/// participates in.  `GG` is the generic tag (right turns); it never
/// takes part in cross-type conflict resolution but does take part in
/// same-type spawn blocking.
#[derive(Debug, Clone, Copy, PartialEq, Eq, Structural)]
pub enum CollisionType {
    NS,
    WS,
    ES,
    SS,
    NL,
    WL,
    EL,
    SL,
    GG,
}

} // verus!
