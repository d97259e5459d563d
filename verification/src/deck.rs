//! The deck: its standard contents, the seeded shuffle and drawing.

use crate::card::Card;
use crate::rng::DeckRng;
use vstd::prelude::*;

verus! {

/// `copies` cards of face value `value`.
pub open spec fn run_of(value: u8, copies: nat) -> Seq<Card> {
    Seq::new(copies, |i: int| Card { value })
}

/// One card of value 1, two of value 2, and so on up to `top` cards of value
/// `top`, in ascending order.
pub open spec fn ascending_runs(top: nat) -> Seq<Card>
    decreases top,
{
    if top == 0 {
        Seq::empty()
    } else {
        ascending_runs((top - 1) as nat) + run_of(top as u8, top)
    }
}

/// The cards of a fresh deck: the ascending runs of the values 1 to 12, then
/// the single card of value 0.
pub open spec fn standard_cards() -> Seq<Card> {
    ascending_runs(12).push(Card { value: 0 })
}

/// How many cards of face value `value` are among `cards`.
pub open spec fn copies_of(cards: Seq<Card>, value: u8) -> nat {
    cards.to_multiset().count(Card { value })
}

/// `cards` with the cards at `i` and `j` exchanged.
pub open spec fn swapped(cards: Seq<Card>, i: int, j: int) -> Seq<Card> {
    cards.update(i, cards[j]).update(j, cards[i])
}

/// How many words a Fisher-Yates shuffle of `len` cards consumes.
pub open spec fn shuffle_draws(len: nat) -> nat {
    if len == 0 {
        0
    } else {
        (len - 1) as nat
    }
}

/// `cards` after the first `steps` steps of a Fisher-Yates shuffle that walks
/// from the last position down. Step `k` (counted from 1) works on position
/// `i = cards.len() - k` and exchanges it with position `words[k - 1] % (i + 1)`.
pub open spec fn shuffle_steps(cards: Seq<Card>, words: Seq<u32>, steps: nat) -> Seq<Card>
    decreases steps,
{
    if steps == 0 {
        cards
    } else {
        let i = cards.len() - steps;
        swapped(shuffle_steps(cards, words, (steps - 1) as nat), i, words[steps - 1] as int % (i + 1))
    }
}

/// `cards` after a complete Fisher-Yates shuffle driven by `words`.
pub open spec fn shuffled(cards: Seq<Card>, words: Seq<u32>) -> Seq<Card> {
    shuffle_steps(cards, words, shuffle_draws(cards.len()))
}

/// An ordered pile of cards and the generator that shuffles it. The last card
/// is the top of the pile.
#[derive(Debug)]
pub struct Deck {
    pub cards: Vec<Card>,
    pub rng: DeckRng,
}

impl Clone for Deck {
    /// A deck with the same cards in the same order, and a generator at the
    /// same place of the same stream.
    fn clone(&self) -> (copy: Self)
        ensures
            copy@ == self@,
    {
        let cards = self.cards.clone();
        assert(cards@ =~= self.cards@);
        Deck { cards, rng: self.rng }
    }
}

/// What a deck is to the rules: its cards from bottom to top, and its generator.
pub struct DeckView {
    pub cards: Seq<Card>,
    pub rng: DeckRng,
}

impl View for Deck {
    type V = DeckView;

    open spec fn view(&self) -> DeckView {
        DeckView { cards: self.cards@, rng: self.rng }
    }
}

impl DeckView {
    /// The unshuffled standard deck with a generator seeded by `seed`.
    pub open spec fn fresh(seed: u64) -> DeckView {
        DeckView { cards: standard_cards(), rng: DeckRng::seeded(seed) }
    }

    /// This deck after a shuffle by its own generator.
    pub open spec fn shuffle(self) -> DeckView {
        let draws = shuffle_draws(self.cards.len());
        DeckView { cards: shuffled(self.cards, self.rng.words(draws)), rng: self.rng.advance(draws) }
    }
}

/// A swap inside the sequence keeps its length and its cards.
pub proof fn lemma_swapped_keeps_cards(cards: Seq<Card>, i: int, j: int)
    requires
        0 <= i < cards.len(),
        0 <= j < cards.len(),
    ensures
        swapped(cards, i, j).len() == cards.len(),
        swapped(cards, i, j).to_multiset() == cards.to_multiset(),
{
    broadcast use vstd::seq_lib::to_multiset_update;

    let mid = cards.update(i, cards[j]);
    assert(mid.to_multiset() == cards.to_multiset().insert(cards[j]).remove(cards[i]));
    assert(swapped(cards, i, j).to_multiset() == mid.to_multiset().insert(cards[i]).remove(mid[j]));
    assert(cards.to_multiset().count(cards[i]) > 0) by {
        vstd::seq_lib::to_multiset_contains(cards, cards[i]);
    }
    assert(cards.to_multiset().count(cards[j]) > 0) by {
        vstd::seq_lib::to_multiset_contains(cards, cards[j]);
    }
    assert(swapped(cards, i, j).to_multiset() =~= cards.to_multiset());
}

/// Every prefix of a shuffle is a rearrangement of the cards it started from.
pub proof fn lemma_shuffle_steps_permute(cards: Seq<Card>, words: Seq<u32>, steps: nat)
    requires
        steps <= shuffle_draws(cards.len()),
    ensures
        shuffle_steps(cards, words, steps).len() == cards.len(),
        shuffle_steps(cards, words, steps).to_multiset() == cards.to_multiset(),
    decreases steps,
{
    if steps > 0 {
        lemma_shuffle_steps_permute(cards, words, (steps - 1) as nat);
        let i = cards.len() - steps;
        lemma_swapped_keeps_cards(
            shuffle_steps(cards, words, (steps - 1) as nat),
            i,
            words[steps - 1] as int % (i + 1),
        );
    }
}

/// Shuffling is a permutation: whatever the words, the shuffled sequence is
/// as long as the one it was made from and holds each card as often.
pub proof fn lemma_shuffled_is_permutation(cards: Seq<Card>, words: Seq<u32>)
    ensures
        shuffled(cards, words).len() == cards.len(),
        shuffled(cards, words).to_multiset() == cards.to_multiset(),
        forall|value: u8| copies_of(shuffled(cards, words), value) == copies_of(cards, value),
{
    lemma_shuffle_steps_permute(cards, words, shuffle_draws(cards.len()));
}

/// A run holds its own value as often as it is long, and no other value.
pub proof fn lemma_run_copies(value: u8, copies: nat, wanted: u8)
    ensures
        copies_of(run_of(value, copies), wanted) == if wanted == value {
            copies
        } else {
            0
        },
    decreases copies,
{
    broadcast use vstd::seq_lib::to_multiset_build;

    if copies == 0 {
        assert(run_of(value, copies) =~= Seq::<Card>::empty());
        assert(Seq::<Card>::empty().to_multiset() =~= vstd::multiset::Multiset::<Card>::empty()) by {
            Seq::<Card>::empty().to_multiset_ensures();
        }
    } else {
        lemma_run_copies(value, (copies - 1) as nat, wanted);
        assert(run_of(value, copies) =~= run_of(value, (copies - 1) as nat).push(Card { value }));
    }
}

/// The ascending runs up to `top` hold `value` cards of each `value` from 1 to
/// `top`, and nothing else.
pub proof fn lemma_ascending_copies(top: nat, wanted: u8)
    requires
        top <= u8::MAX,
    ensures
        ascending_runs(top).len() * 2 == top * (top + 1),
        copies_of(ascending_runs(top), wanted) == if 1 <= wanted <= top {
            wanted as nat
        } else {
            0
        },
    decreases top,
{
    if top == 0 {
        assert(Seq::<Card>::empty().to_multiset() =~= vstd::multiset::Multiset::<Card>::empty()) by {
            Seq::<Card>::empty().to_multiset_ensures();
        }
    } else {
        let below = ascending_runs((top - 1) as nat);
        lemma_ascending_copies((top - 1) as nat, wanted);
        lemma_run_copies(top as u8, top, wanted);
        vstd::seq_lib::lemma_multiset_commutative(below, run_of(top as u8, top));
        assert(top * (top + 1) == (top - 1) * top + 2 * top) by (nonlinear_arith);
    }
}

/// A fresh deck has 79 cards: one card of value 0 and, for each value from 1
/// to 12, as many cards as the value says.
pub proof fn lemma_standard_cards_counts()
    ensures
        standard_cards().len() == 79,
        copies_of(standard_cards(), 0) == 1,
        forall|value: u8| 1 <= value <= 12 ==> copies_of(standard_cards(), value) == value,
        forall|value: u8| value > 12 ==> copies_of(standard_cards(), value) == 0,
{
    broadcast use vstd::seq_lib::to_multiset_build;

    lemma_ascending_copies(12, 0);
    assert forall|value: u8| true implies copies_of(standard_cards(), value) == if value == 0 {
        1nat
    } else if value <= 12 {
        value as nat
    } else {
        0nat
    } by {
        lemma_ascending_copies(12, value);
    }
}

impl Deck {
    /// Builds the standard deck in its generation order, unshuffled, with a
    /// generator seeded by `seed`.
    pub fn new(seed: u64) -> (deck: Self)
        ensures
            deck@ == DeckView::fresh(seed),
    {
        let mut cards: Vec<Card> = Vec::new();
        let mut value: u8 = 1;
        while value <= 12
            invariant
                1 <= value <= 13,
                cards@ == ascending_runs((value - 1) as nat),
            decreases 13 - value,
        {
            let mut copies: u8 = 0;
            while copies < value
                invariant
                    1 <= value <= 12,
                    copies <= value,
                    cards@ == ascending_runs((value - 1) as nat) + run_of(value, copies as nat),
                decreases value - copies,
            {
                cards.push(Card::new(value));
                copies += 1;
            }
            value += 1;
        }
        cards.push(Card::new(0));
        Deck { cards, rng: DeckRng::seed_from_u64(seed) }
    }

    /// Shuffles the cards in place with words drawn from the deck's generator:
    /// a Fisher-Yates shuffle from the last position down to position 1.
    pub fn shuffle(&mut self)
        ensures
            final(self)@ == old(self)@.shuffle(),
    {
        let draws = if self.cards.len() == 0 {
            0
        } else {
            self.cards.len() - 1
        };
        let mut words: Vec<u32> = Vec::new();
        while words.len() < draws
            invariant
                words.len() <= draws,
                self.cards == old(self).cards,
                self.rng == old(self).rng.advance(words.len() as nat),
                words@ == old(self).rng.words(words.len() as nat),
            decreases draws - words.len(),
        {
            let word = self.rng.next_u32();
            words.push(word);
        }
        let done = shuffle_with(&mut self.cards, &words);
        assert(done);
    }

    /// Takes the top card, the last of the sequence; `None` when no card is left.
    pub fn draw(&mut self) -> (card: Option<Card>)
        ensures
            final(self).rng == old(self).rng,
            match card {
                Some(top) => old(self).cards.len() > 0 && top == old(self).cards@.last()
                    && final(self).cards@ == old(self).cards@.drop_last(),
                None => old(self).cards.len() == 0 && final(self).cards@ == old(self).cards@,
            },
    {
        self.cards.pop()
    }

    /// Whether no card is left.
    pub fn is_empty(&self) -> (empty: bool)
        ensures
            empty == (self.cards@.len() == 0),
    {
        self.cards.is_empty()
    }

    /// How many cards are left.
    pub fn len(&self) -> (len: usize)
        ensures
            len == self.cards@.len(),
    {
        self.cards.len()
    }
}

/// Shuffles `cards` in place by Fisher-Yates, from the last position down to
/// position 1, taking the word for each step from `words` in order. One word
/// is needed for every position but the first; with fewer words nothing is
/// done and the answer is `false`.
pub fn shuffle_with(cards: &mut Vec<Card>, words: &Vec<u32>) -> (done: bool)
    ensures
        done == (words.len() >= shuffle_draws(old(cards).len() as nat)),
        done ==> final(cards)@ == shuffled(old(cards)@, words@),
        !done ==> final(cards)@ == old(cards)@,
{
    let len = cards.len();
    if len == 0 {
        return true;
    }
    if words.len() < len - 1 {
        return false;
    }
    let mut steps: usize = 0;
    while steps < len - 1
        invariant
            len == old(cards).len(),
            len >= 1,
            words.len() >= len - 1,
            steps <= len - 1,
            cards@.len() == len,
            cards@ == shuffle_steps(old(cards)@, words@, steps as nat),
        decreases len - 1 - steps,
    {
        let i = len - 1 - steps;
        let j = (words[steps] as usize) % (i + 1);
        let upper = cards[i];
        let lower = cards[j];
        cards[i] = lower;
        cards[j] = upper;
        steps += 1;
    }
    true
}

} // verus!
