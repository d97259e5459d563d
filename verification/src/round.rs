//! Where a round stands.

use vstd::prelude::*;

verus! {

/// The number of the round, whose turn it is, and whether the round is over.
#[derive(Debug)]
pub struct RoundState {
    pub round_number: u32,
    pub current_player_index: usize,
    pub is_finished: bool,
}

impl Clone for RoundState {
    /// The same state.
    fn clone(&self) -> (copy: Self)
        ensures
            copy == *self,
    {
        RoundState {
            round_number: self.round_number,
            current_player_index: self.current_player_index,
            is_finished: self.is_finished,
        }
    }
}

impl RoundState {
    /// The state before the first round: round 1, the first player to move,
    /// not finished.
    pub open spec fn initial() -> RoundState {
        RoundState { round_number: 1, current_player_index: 0, is_finished: false }
    }

    /// The state before the first round.
    pub fn new() -> (round: Self)
        ensures
            round == Self::initial(),
    {
        Self { round_number: 1, current_player_index: 0, is_finished: false }
    }
}

} // verus!
