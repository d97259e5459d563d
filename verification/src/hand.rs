//! A player's hand: its total, the bust test and the search for a Flip7.

use crate::card::Card;
use vstd::prelude::*;
use vstd::slice::slice_subrange;

verus! {

/// A hand at or under this total is safe; above it the hand is bust.
pub const BUST_LIMIT: u8 = 21;

/// The sum that some cards of a hand must reach for a Flip7.
pub const FLIP7_TARGET: u8 = 7;

/// The face values of `cards`, in order.
pub open spec fn values_of(cards: Seq<Card>) -> Seq<u8> {
    Seq::new(cards.len(), |i: int| cards[i].value)
}

/// The sum of `values`.
pub open spec fn sum_of(values: Seq<u8>) -> nat
    decreases values.len(),
{
    if values.len() == 0 {
        0
    } else {
        values[0] as nat + sum_of(values.drop_first())
    }
}

/// The sum of the values that `picks` selects: `values[i]` counts where
/// `picks[i]` holds.
pub open spec fn picked_sum(values: Seq<u8>, picks: Seq<bool>) -> nat
    decreases values.len(),
{
    if values.len() == 0 {
        0
    } else {
        (if picks[0] {
            values[0] as nat
        } else {
            0
        }) + picked_sum(values.drop_first(), picks.drop_first())
    }
}

/// Whether some selection of `values`, possibly the empty one, sums to `target`.
pub open spec fn subset_sums_to(values: Seq<u8>, target: nat) -> bool {
    exists|picks: Seq<bool>| picks.len() == values.len() && picked_sum(values, picks) == target
}

/// Whether some non-empty selection of `cards` has values that sum to exactly 7.
pub open spec fn holds_flip7(cards: Seq<Card>) -> bool {
    exists|picks: Seq<bool>|
        picks.len() == cards.len() && picks.contains(true) && picked_sum(values_of(cards), picks)
            == FLIP7_TARGET
}

/// The total face value of `cards`.
pub open spec fn total_of(cards: Seq<Card>) -> nat {
    sum_of(values_of(cards))
}

/// Subset sum by cases on the first value: it is left out, or it is taken and
/// the rest must make up the difference.
pub open spec fn reachable(values: Seq<u8>, target: nat) -> bool
    decreases values.len(),
{
    target == 0 || (values.len() > 0 && (reachable(values.drop_first(), target) || (values[0]
        <= target && reachable(values.drop_first(), (target - values[0]) as nat))))
}

/// A selection that sums to more than nothing selects something.
pub proof fn lemma_positive_sum_picks(values: Seq<u8>, picks: Seq<bool>)
    requires
        picks.len() == values.len(),
        picked_sum(values, picks) > 0,
    ensures
        picks.contains(true),
    decreases values.len(),
{
    if picks[0] {
        assert(picks[0] == true);
    } else {
        lemma_positive_sum_picks(values.drop_first(), picks.drop_first());
        let i = choose|i: int| 0 <= i < picks.drop_first().len() && picks.drop_first()[i] == true;
        assert(picks[i + 1] == true);
    }
}

/// No selection sums to more than all the values together.
pub proof fn lemma_picked_sum_bound(values: Seq<u8>, picks: Seq<bool>)
    ensures
        picked_sum(values, picks) <= sum_of(values),
    decreases values.len(),
{
    if values.len() > 0 {
        lemma_picked_sum_bound(values.drop_first(), picks.drop_first());
    }
}

/// The case analysis finds a sum exactly when a selection with that sum exists.
pub proof fn lemma_reachable_is_subset_sum(values: Seq<u8>, target: nat)
    ensures
        reachable(values, target) == subset_sums_to(values, target),
    decreases values.len(),
{
    let rest = values.drop_first();
    if values.len() == 0 {
        let none = Seq::<bool>::empty();
        assert(picked_sum(values, none) == 0);
        assert forall|picks: Seq<bool>| picks.len() == values.len() implies picked_sum(
            values,
            picks,
        ) == 0 by {}
    } else {
        lemma_reachable_is_subset_sum(rest, target);
        if values[0] <= target {
            lemma_reachable_is_subset_sum(rest, (target - values[0]) as nat);
        }
        if reachable(values, target) {
            if target == 0 {
                let none = Seq::new(values.len(), |i: int| false);
                lemma_unpicked_sum(values, none);
                assert(picked_sum(values, none) == target);
            } else if reachable(rest, target) {
                let tail = choose|picks: Seq<bool>|
                    picks.len() == rest.len() && picked_sum(rest, picks) == target;
                let picks = seq![false] + tail;
                assert(picks.drop_first() =~= tail);
                assert(picked_sum(values, picks) == target);
            } else {
                let tail = choose|picks: Seq<bool>|
                    picks.len() == rest.len() && picked_sum(rest, picks) == (target
                        - values[0]) as nat;
                let picks = seq![true] + tail;
                assert(picks.drop_first() =~= tail);
                assert(picked_sum(values, picks) == target);
            }
        }
        if subset_sums_to(values, target) {
            let picks = choose|picks: Seq<bool>|
                picks.len() == values.len() && picked_sum(values, picks) == target;
            let tail = picks.drop_first();
            assert(tail.len() == rest.len());
            if picks[0] {
                assert(picked_sum(rest, tail) == (target - values[0]) as nat);
            } else {
                assert(picked_sum(rest, tail) == target);
            }
        }
    }
}

/// A selection that picks nothing sums to nothing.
pub proof fn lemma_unpicked_sum(values: Seq<u8>, picks: Seq<bool>)
    requires
        picks.len() == values.len(),
        forall|i: int| 0 <= i < picks.len() ==> !picks[i],
    ensures
        picked_sum(values, picks) == 0,
    decreases values.len(),
{
    if values.len() > 0 {
        lemma_unpicked_sum(values.drop_first(), picks.drop_first());
    }
}

/// For a positive target, selections and non-empty selections reach the same sums.
pub proof fn lemma_flip7_is_subset_sum(cards: Seq<Card>)
    ensures
        holds_flip7(cards) == subset_sums_to(values_of(cards), FLIP7_TARGET as nat),
{
    let values = values_of(cards);
    if subset_sums_to(values, FLIP7_TARGET as nat) {
        let picks = choose|picks: Seq<bool>|
            picks.len() == values.len() && picked_sum(values, picks) == FLIP7_TARGET as nat;
        lemma_positive_sum_picks(values, picks);
    }
}

/// The sum of `values`, in a type wide enough for any slice.
fn sum_values(values: &[u8]) -> (sum: u128)
    ensures
        sum == sum_of(values@),
{
    let mut sum: u128 = 0;
    let mut i: usize = 0;
    assert(values@.subrange(0, values@.len() as int) =~= values@);
    while i < values.len()
        invariant
            i <= values.len(),
            sum <= 255 * i,
            sum + sum_of(values@.subrange(i as int, values@.len() as int)) == sum_of(values@),
        decreases values.len() - i,
    {
        assert(values@.subrange(i as int, values@.len() as int).drop_first()
            =~= values@.subrange(i + 1, values@.len() as int));
        sum += values[i] as u128;
        i += 1;
    }
    sum
}

/// The cards a player holds, in the order they came.
#[derive(Debug)]
pub struct Hand {
    pub cards: Vec<Card>,
}

impl Clone for Hand {
    /// A hand with the same cards in the same order.
    fn clone(&self) -> (copy: Self)
        ensures
            copy@ == self@,
    {
        let cards = self.cards.clone();
        assert(cards@ =~= self.cards@);
        Hand { cards }
    }
}

impl View for Hand {
    type V = Seq<Card>;

    open spec fn view(&self) -> Seq<Card> {
        self.cards@
    }
}

impl Hand {
    /// The empty hand.
    pub fn new() -> (hand: Self)
        ensures
            hand@ == Seq::<Card>::empty(),
    {
        Self { cards: Vec::new() }
    }

    /// Puts `card` at the end of the hand.
    pub fn add_card(&mut self, card: Card)
        ensures
            final(self)@ == old(self)@.push(card),
    {
        self.cards.push(card);
    }

    /// The sum of the card values. The result type holds the sum of any
    /// number of cards that a hand can store.
    pub fn total_value(&self) -> (total: u128)
        ensures
            total == total_of(self@),
    {
        let values = self.values();
        sum_values(values.as_slice())
    }

    /// Whether the total exceeds 21.
    pub fn is_bust(&self) -> (bust: bool)
        ensures
            bust == (total_of(self@) > BUST_LIMIT),
    {
        self.total_value() > BUST_LIMIT as u128
    }

    /// Whether some of the cards, at least one, have values that sum to
    /// exactly 7.
    pub fn has_flip7(&self) -> (flip7: bool)
        ensures
            flip7 == holds_flip7(self@),
    {
        let values = self.values();
        proof {
            lemma_flip7_is_subset_sum(self@);
        }
        Self::can_sum_to_target(values.as_slice(), FLIP7_TARGET)
    }

    /// The face values of the cards, in hand order.
    fn values(&self) -> (values: Vec<u8>)
        ensures
            values@ == values_of(self@),
    {
        let mut values: Vec<u8> = Vec::new();
        let mut i: usize = 0;
        while i < self.cards.len()
            invariant
                i <= self.cards.len(),
                values@ == values_of(self@).take(i as int),
            decreases self.cards.len() - i,
        {
            values.push(self.cards[i].value);
            i += 1;
        }
        values
    }

    /// Whether some of `values` sum to exactly `target`; nothing at all sums
    /// to 0. The search walks the values in order: a value equal to what is
    /// still missing ends it, a smaller one is taken and the search goes on
    /// behind it for the rest.
    pub fn can_sum_to_target(values: &[u8], target: u8) -> (found: bool)
        ensures
            found == subset_sums_to(values@, target as nat),
        decreases values@.len(),
    {
        proof {
            lemma_reachable_is_subset_sum(values@, target as nat);
        }
        if target == 0 {
            return true;
        }
        if values.len() == 0 {
            return false;
        }
        if target as u128 > sum_values(values) {
            proof {
                assert forall|picks: Seq<bool>| picks.len() == values@.len() implies picked_sum(
                    values@,
                    picks,
                ) != target as nat by {
                    lemma_picked_sum_bound(values@, picks);
                }
            }
            return false;
        }
        let len = values.len();
        let mut i: usize = 0;
        assert(values@.subrange(0, len as int) =~= values@);
        while i < len
            invariant
                len == values@.len(),
                i <= len,
                target > 0,
                reachable(values@, target as nat) == subset_sums_to(values@, target as nat),
                reachable(values@, target as nat) == reachable(
                    values@.subrange(i as int, len as int),
                    target as nat,
                ),
            decreases len - i,
        {
            let value = values[i];
            let rest = slice_subrange(values, i + 1, len);
            proof {
                let behind = values@.subrange(i as int, len as int);
                assert(behind.drop_first() =~= rest@);
                assert(behind[0] == value);
                lemma_reachable_is_subset_sum(rest@, (target - value) as nat);
            }
            if value == target {
                return true;
            }
            if value < target {
                if Self::can_sum_to_target(rest, target - value) {
                    return true;
                }
            }
            i += 1;
        }
        false
    }
}

} // verus!
