//! Playing cards.

use vstd::prelude::*;

verus! {

/// A card, identified by its face value.
#[derive(Debug, Clone, Copy, PartialEq, Eq, Structural)]
pub struct Card {
    pub value: u8,
}

impl Card {
    /// Makes the card with the given face value.
    pub fn new(value: u8) -> (card: Self)
        ensures
            card.value == value,
    {
        Self { value }
    }
}

} // verus!
