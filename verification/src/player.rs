//! A player: identity, hand, score and the stay flag.

use crate::card::Card;
use crate::hand::{holds_flip7, total_of, Hand, BUST_LIMIT};
use vstd::prelude::*;

verus! {

/// The score of a hand that holds a Flip7.
pub const FLIP7_SCORE: u32 = 21;

/// A seat at the table.
#[derive(Debug)]
pub struct Player {
    pub id: String,
    pub name: String,
    pub hand: Hand,
    pub score: u32,
    pub has_stayed: bool,
}

impl Clone for Player {
    /// A player with the same id, name, hand, score and stay flag.
    fn clone(&self) -> (copy: Self)
        ensures
            copy@ == self@,
    {
        Player {
            id: self.id.clone(),
            name: self.name.clone(),
            hand: self.hand.clone(),
            score: self.score,
            has_stayed: self.has_stayed,
        }
    }
}

/// What a player is to the rules.
pub struct PlayerView {
    pub id: Seq<char>,
    pub name: Seq<char>,
    pub hand: Seq<Card>,
    pub score: u32,
    pub has_stayed: bool,
}

impl View for Player {
    type V = PlayerView;

    open spec fn view(&self) -> PlayerView {
        PlayerView {
            id: self.id@,
            name: self.name@,
            hand: self.hand@,
            score: self.score,
            has_stayed: self.has_stayed,
        }
    }
}

impl PlayerView {
    /// A player who has just sat down: no cards, no points, not stayed.
    pub open spec fn joined(id: Seq<char>, name: Seq<char>) -> PlayerView {
        PlayerView { id, name, hand: Seq::empty(), score: 0, has_stayed: false }
    }

    /// Whether the hand's total exceeds 21.
    pub open spec fn is_bust(self) -> bool {
        total_of(self.hand) > BUST_LIMIT
    }

    /// What the hand is worth when the round is scored: 21 for a Flip7,
    /// whatever the total; else the total, unless the hand is bust; else 0.
    pub open spec fn round_score(self) -> u32 {
        if holds_flip7(self.hand) {
            FLIP7_SCORE
        } else if !self.is_bust() {
            total_of(self.hand) as u32
        } else {
            0
        }
    }

    /// The player with an empty hand and the stay flag cleared.
    pub open spec fn reset(self) -> PlayerView {
        PlayerView { hand: Seq::empty(), has_stayed: false, ..self }
    }

    /// The player with `card` added to the hand.
    pub open spec fn with_card(self, card: Card) -> PlayerView {
        PlayerView { hand: self.hand.push(card), ..self }
    }

    /// The player with the stay flag set.
    pub open spec fn stayed(self) -> PlayerView {
        PlayerView { has_stayed: true, ..self }
    }

    /// The player with the hand's worth added to the score.
    pub open spec fn scored(self) -> PlayerView {
        PlayerView { score: (self.score + self.round_score()) as u32, ..self }
    }
}

impl Player {
    /// A player with an empty hand and no points.
    pub fn new(id: String, name: String) -> (player: Self)
        ensures
            player@ == PlayerView::joined(id@, name@),
    {
        Self { id, name, hand: Hand::new(), score: 0, has_stayed: false }
    }

    /// Adds `card` to the hand. Whether the player may draw is for the game
    /// to decide.
    pub fn draw_card(&mut self, card: Card)
        ensures
            final(self)@ == old(self)@.with_card(card),
    {
        self.hand.add_card(card);
    }

    /// Marks the player as stayed.
    pub fn stay(&mut self)
        ensures
            final(self)@ == old(self)@.stayed(),
    {
        self.has_stayed = true;
    }

    /// What the hand is worth when the round is scored. A Flip7 is looked
    /// for first, so it counts even in a bust hand.
    pub fn round_score(&self) -> (score: u32)
        ensures
            score == self@.round_score(),
            score <= FLIP7_SCORE,
    {
        if self.hand.has_flip7() {
            FLIP7_SCORE
        } else if !self.hand.is_bust() {
            self.hand.total_value() as u32
        } else {
            0
        }
    }

    /// Empties the hand and clears the stay flag; id, name and score remain.
    pub fn reset_for_round(&mut self)
        ensures
            final(self)@ == old(self)@.reset(),
    {
        self.hand = Hand::new();
        self.has_stayed = false;
    }
}

} // verus!
