//! Gameplay events: immutable records of what happened during one update
//! cycle, appended in chronological order to a buffer (`Vec<Event>`) owned by
//! the application driver and drained by presentation layers after each cycle.

use vstd::prelude::*;

verus! {

/// One discrete gameplay event. Repeated identical events are kept; the
/// buffer never deduplicates.
#[derive(Clone, Copy, PartialEq, Eq, Structural, Debug)]
pub enum Event {
    /// The first update after a construction or a reset has run.
    GameStart,
    /// Two entities collided and the pair was resolved.
    Collision,
    /// The score changed as part of a resolution.
    ScoreChange,
}

} // verus!
