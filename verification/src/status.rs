//! The three-state game status machine.
//!
//! The game status is a process-wide singleton that cycles
//! `Reset -> Started -> Stopped -> Reset`; no other transition is valid.

use vstd::prelude::*;

verus! {

/// The status of the game, a single logical record with no player
/// association. Transitions form a strict three-state cycle.
#[derive(Clone, Copy, Debug, PartialEq, Eq, Structural)]
pub enum GameStatus {
    Reset,
    Started,
    Stopped,
}

impl GameStatus {
    /// The unique predecessor of `self` in the status cycle: the value the
    /// stored status must hold for a transition to `self` to be accepted.
    pub fn valid_from_status(self) -> (r: GameStatus)
        ensures
            r == self.spec_valid_from(),
    {
        match self {
            GameStatus::Started => GameStatus::Reset,
            GameStatus::Stopped => GameStatus::Started,
            GameStatus::Reset => GameStatus::Stopped,
        }
    }

    /// The unique predecessor of `self` in the cycle
    /// `Reset -> Started -> Stopped -> Reset`.
    pub open spec fn spec_valid_from(self) -> GameStatus {
        match self {
            GameStatus::Started => GameStatus::Reset,
            GameStatus::Stopped => GameStatus::Started,
            GameStatus::Reset => GameStatus::Stopped,
        }
    }
}

/// Whether a transition from status `from` to status `to` is valid: `to`
/// must be the unique successor of `from` in the cycle.
pub open spec fn valid_transition(from: GameStatus, to: GameStatus) -> bool {
    from == to.spec_valid_from()
}

/// The transition table of the status cycle: exactly the three pairs
/// `Reset -> Started`, `Started -> Stopped` and `Stopped -> Reset` are
/// valid transitions; every other pair is rejected.
pub proof fn lemma_transition_table()
    ensures
        forall|from: GameStatus, to: GameStatus| valid_transition(from, to) <==> ((from
            == GameStatus::Reset && to == GameStatus::Started) || (from == GameStatus::Started && to
            == GameStatus::Stopped) || (from == GameStatus::Stopped && to == GameStatus::Reset)),
{
}

} // verus!
