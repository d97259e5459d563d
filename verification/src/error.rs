//! The ways an operation on a game can fail.

use vstd::prelude::*;

verus! {

/// Why an operation was refused. A refused operation leaves the game as it was.
#[derive(Debug, Clone, Copy, PartialEq, Eq, Structural)]
pub enum GameError {
    /// A round was started with no players.
    InvalidSetup,
    /// The player named is not the one whose turn it is.
    NotYourTurn,
    /// The player has already stayed in this round.
    AlreadyStayed,
    /// The round is over.
    RoundAlreadyFinished,
    /// No card is left to draw.
    DeckExhausted,
    /// No player has the given id.
    PlayerNotFound,
}

impl GameError {
    /// The cause in words.
    pub open spec fn text(self) -> Seq<char> {
        match self {
            GameError::InvalidSetup => "No players added"@,
            GameError::NotYourTurn => "Not your turn"@,
            GameError::AlreadyStayed => "Player has already stayed"@,
            GameError::RoundAlreadyFinished => "Round is finished"@,
            GameError::DeckExhausted => "Deck is empty"@,
            GameError::PlayerNotFound => "Player not found"@,
        }
    }

    /// The cause in words, for display.
    pub fn message(&self) -> (message: String)
        ensures
            message@ == self.text(),
    {
        match self {
            GameError::InvalidSetup => "No players added".to_owned(),
            GameError::NotYourTurn => "Not your turn".to_owned(),
            GameError::AlreadyStayed => "Player has already stayed".to_owned(),
            GameError::RoundAlreadyFinished => "Round is finished".to_owned(),
            GameError::DeckExhausted => "Deck is empty".to_owned(),
            GameError::PlayerNotFound => "Player not found".to_owned(),
        }
    }
}

} // verus!
