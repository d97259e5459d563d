use game_core::{shuffle_with, Card, Deck, DeckRng};
use rand_chacha::rand_core::{RngCore, SeedableRng};
use rand_chacha::ChaCha8Rng;
use std::collections::HashMap;

fn values(cards: &[Card]) -> Vec<u8> {
    cards.iter().map(|card| card.value).collect()
}

fn cards(values: &[u8]) -> Vec<Card> {
    values.iter().map(|value| Card::new(*value)).collect()
}

/// Fisher-Yates as the generator itself drives it, word after word.
fn shuffled_by_generator(rng: &mut ChaCha8Rng, cards: &mut Vec<Card>) {
    for i in (1..cards.len()).rev() {
        let j = (rng.next_u32() as usize) % (i + 1);
        cards.swap(i, j);
    }
}

#[test]
fn test_deck_card_counts() {
    let deck = Deck::new(123);
    let mut card_counts = HashMap::new();

    for card in &deck.cards {
        *card_counts.entry(card.value).or_insert(0) += 1;
    }

    // Cards 1-12 should have n copies each
    for value in 1..=12 {
        assert_eq!(card_counts[&value], value as i32);
    }

    // Card 0 should have exactly 1 copy
    assert_eq!(card_counts[&0], 1);

    // Total should be 1+2+3+...+12+1 = 78+1 = 79
    assert_eq!(deck.cards.len(), 79);
}

#[test]
fn card_new_keeps_value() {
    assert_eq!(Card::new(0).value, 0);
    assert_eq!(Card::new(12).value, 12);
    assert_eq!(Card::new(255).value, 255);
    assert_eq!(Card::new(7), Card { value: 7 });
}

#[test]
fn new_deck_is_in_generation_order() {
    let deck = Deck::new(5);
    let mut expected = Vec::new();
    for value in 1..=12u8 {
        for _ in 0..value {
            expected.push(value);
        }
    }
    expected.push(0);
    assert_eq!(values(&deck.cards), expected);
    assert_eq!(deck.rng, DeckRng { seed: 5, word_pos: 0 });
}

#[test]
fn new_deck_does_not_depend_on_seed() {
    for seed in [0u64, 1, 42, u64::MAX] {
        let deck = Deck::new(seed);
        assert_eq!(deck.len(), 79);
        assert_eq!(values(&deck.cards), values(&Deck::new(7).cards));
    }
}

#[test]
fn len_and_is_empty_follow_the_cards() {
    let mut deck = Deck::new(1);
    assert_eq!(deck.len(), 79);
    assert!(!deck.is_empty());
    deck.cards.clear();
    assert_eq!(deck.len(), 0);
    assert!(deck.is_empty());
}

#[test]
fn draw_takes_the_last_card() {
    let mut deck = Deck::new(9);
    assert_eq!(deck.draw(), Some(Card::new(0)));
    assert_eq!(deck.draw(), Some(Card::new(12)));
    assert_eq!(deck.len(), 77);
    assert_eq!(deck.rng, DeckRng { seed: 9, word_pos: 0 });
}

#[test]
fn draw_from_empty_deck_gives_none() {
    let mut deck = Deck::new(9);
    for _ in 0..79 {
        assert!(deck.draw().is_some());
    }
    assert!(deck.is_empty());
    assert_eq!(deck.draw(), None);
    assert_eq!(deck.draw(), None);
    assert_eq!(deck.len(), 0);
}

#[test]
fn shuffle_is_a_permutation() {
    for seed in [0u64, 42, 123, 9_999_999_999] {
        let mut deck = Deck::new(seed);
        deck.shuffle();
        assert_eq!(deck.len(), 79);
        let mut after = values(&deck.cards);
        after.sort();
        let mut before = values(&Deck::new(seed).cards);
        before.sort();
        assert_eq!(after, before);
    }
}

#[test]
fn shuffle_is_reproducible() {
    let mut first = Deck::new(2024);
    let mut second = Deck::new(2024);
    first.shuffle();
    second.shuffle();
    assert_eq!(first.cards, second.cards);
    assert_eq!(first.rng, second.rng);
}

#[test]
fn shuffle_depends_on_seed() {
    let mut first = Deck::new(1);
    let mut second = Deck::new(2);
    first.shuffle();
    second.shuffle();
    assert_ne!(first.cards, second.cards);
    assert_ne!(first.cards, Deck::new(1).cards);
}

#[test]
fn shuffle_follows_the_generator() {
    for seed in [0u64, 42, 43, 123, u64::MAX] {
        let mut deck = Deck::new(seed);
        deck.shuffle();

        let mut rng = ChaCha8Rng::seed_from_u64(seed);
        let mut expected = Deck::new(seed).cards;
        shuffled_by_generator(&mut rng, &mut expected);

        assert_eq!(deck.cards, expected);
        assert_eq!(deck.rng.word_pos, rng.get_word_pos());
        assert_eq!(deck.rng.word_pos, 78);
    }
}

#[test]
fn second_shuffle_goes_on_in_the_stream() {
    let mut deck = Deck::new(77);
    deck.shuffle();
    deck.shuffle();

    let mut rng = ChaCha8Rng::seed_from_u64(77);
    let mut expected = Deck::new(77).cards;
    shuffled_by_generator(&mut rng, &mut expected);
    shuffled_by_generator(&mut rng, &mut expected);

    assert_eq!(deck.cards, expected);
    assert_eq!(deck.rng.word_pos, 156);
}

#[test]
fn shuffle_of_short_decks() {
    let mut deck = Deck::new(3);
    deck.cards.clear();
    deck.shuffle();
    assert!(deck.is_empty());
    assert_eq!(deck.rng.word_pos, 0);

    deck.cards.push(Card::new(4));
    deck.shuffle();
    assert_eq!(values(&deck.cards), vec![4]);
    assert_eq!(deck.rng.word_pos, 0);

    deck.cards.push(Card::new(5));
    deck.shuffle();
    assert_eq!(deck.rng.word_pos, 1);
    let word = ChaCha8Rng::seed_from_u64(3).next_u32();
    if word % 2 == 0 {
        assert_eq!(values(&deck.cards), vec![5, 4]);
    } else {
        assert_eq!(values(&deck.cards), vec![4, 5]);
    }
}

#[test]
fn generator_yields_the_chacha8_stream() {
    let mut rng = DeckRng::seed_from_u64(42);
    let mut reference = ChaCha8Rng::seed_from_u64(42);
    for drawn in 0..300u128 {
        assert_eq!(rng.word_pos, drawn);
        assert_eq!(rng.next_u32(), reference.next_u32());
    }
    assert_eq!(rng.seed, 42);
    assert_eq!(rng.word_pos, reference.get_word_pos());
}

#[test]
fn generator_streams_differ_by_seed() {
    let mut first = DeckRng::seed_from_u64(1);
    let mut second = DeckRng::seed_from_u64(2);
    let a: Vec<u32> = (0..8).map(|_| first.next_u32()).collect();
    let b: Vec<u32> = (0..8).map(|_| second.next_u32()).collect();
    assert_ne!(a, b);
}

#[test]
fn generator_wraps_at_the_end_of_the_stream() {
    let period: u128 = 1 << 68;
    let mut rng = DeckRng { seed: 11, word_pos: period - 1 };
    let mut reference = ChaCha8Rng::seed_from_u64(11);
    reference.set_word_pos(period - 1);
    assert_eq!(rng.next_u32(), reference.next_u32());
    assert_eq!(rng.word_pos, 0);
    assert_eq!(rng.next_u32(), ChaCha8Rng::seed_from_u64(11).next_u32());
    assert_eq!(rng.word_pos, 1);
}

#[test]
fn generator_reduces_positions_beyond_the_period() {
    let period: u128 = 1 << 68;
    let mut rng = DeckRng { seed: 11, word_pos: period + 5 };
    let mut reference = ChaCha8Rng::seed_from_u64(11);
    reference.set_word_pos(5);
    assert_eq!(rng.next_u32(), reference.next_u32());
    assert_eq!(rng.word_pos, 6);

    let mut last = DeckRng { seed: 11, word_pos: u128::MAX };
    let mut reference = ChaCha8Rng::seed_from_u64(11);
    reference.set_word_pos(period - 1);
    assert_eq!(last.next_u32(), reference.next_u32());
    assert_eq!(last.word_pos, 0);
}

#[test]
fn shuffle_with_given_words() {
    let mut pile = cards(&[1, 2, 3, 4]);
    assert!(shuffle_with(&mut pile, &vec![0, 0, 0]));
    assert_eq!(values(&pile), vec![2, 3, 4, 1]);

    let mut pile = cards(&[1, 2, 3, 4]);
    assert!(shuffle_with(&mut pile, &vec![5, 4, 3]));
    assert_eq!(values(&pile), vec![1, 3, 4, 2]);

    let mut pile = cards(&[1, 2, 3, 4]);
    assert!(shuffle_with(&mut pile, &vec![3, 2, 1]));
    assert_eq!(values(&pile), vec![1, 2, 3, 4]);

    let mut pile = cards(&[1, 2, 3]);
    assert!(shuffle_with(&mut pile, &vec![u32::MAX, u32::MAX]));
    // 4294967295 % 3 == 0, then 4294967295 % 2 == 1
    assert_eq!(values(&pile), vec![3, 2, 1]);
}

#[test]
fn shuffle_with_ignores_words_it_does_not_need() {
    let mut pile = cards(&[1, 2, 3]);
    assert!(shuffle_with(&mut pile, &vec![0, 0, 9, 9, 9]));
    assert_eq!(values(&pile), vec![2, 3, 1]);

    let mut single = cards(&[8]);
    assert!(shuffle_with(&mut single, &vec![]));
    assert_eq!(values(&single), vec![8]);

    let mut none: Vec<Card> = Vec::new();
    assert!(shuffle_with(&mut none, &vec![]));
    assert!(none.is_empty());
}

#[test]
fn shuffle_with_too_few_words_does_nothing() {
    let mut pile = cards(&[1, 2, 3, 4]);
    assert!(!shuffle_with(&mut pile, &vec![0, 0]));
    assert_eq!(values(&pile), vec![1, 2, 3, 4]);
    assert!(!shuffle_with(&mut pile, &vec![]));
    assert_eq!(values(&pile), vec![1, 2, 3, 4]);
}

#[test]
fn shuffle_order_for_seed_123() {
    let mut deck = Deck::new(123);
    deck.shuffle();
    assert_eq!(
        values(&deck.cards),
        vec![
            9, 10, 9, 3, 4, 8, 0, 9, 6, 7, 5, 12, 10, 12, 8, 5, 6, 12, 10, 10, 2, 5, 11, 3, 12, 10,
            12, 5, 1, 8, 8, 10, 5, 7, 12, 11, 9, 11, 7, 7, 7, 9, 8, 4, 6, 8, 9, 8, 6, 11, 11, 12, 6,
            4, 4, 11, 3, 10, 8, 9, 11, 12, 2, 9, 11, 10, 12, 7, 11, 6, 11, 11, 10, 9, 7, 12, 12, 12,
            10
        ]
    );
}

#[test]
fn first_words_for_seed_42() {
    let mut rng = DeckRng::seed_from_u64(42);
    let words: Vec<u32> = (0..4).map(|_| rng.next_u32()).collect();
    assert_eq!(words, vec![962419617, 2928721845, 628724104, 4081401798]);
}
