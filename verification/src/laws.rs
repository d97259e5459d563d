//! What holds of every deck and of every game, proved from the definitions
//! that the contracts of the operations use.

use crate::card::Card;
use crate::deck::{
    copies_of, lemma_shuffled_is_permutation, lemma_standard_cards_counts, standard_cards, DeckView,
};
use crate::error::GameError;
use crate::game::{
    deck_after, dealt_hand, lemma_next_turn_is_modular, nth_from_top, round_seed, GameView,
};
use crate::hand::total_of;
use crate::player::PlayerView;
use vstd::multiset::Multiset;
use vstd::prelude::*;

verus! {

/// Whatever the seed, a fresh deck has 79 cards: exactly one card of value 0
/// and exactly `value` cards of each `value` from 1 to 12.
pub proof fn law_fresh_deck_contents(seed: u64)
    ensures
        DeckView::fresh(seed).cards.len() == 79,
        copies_of(DeckView::fresh(seed).cards, 0) == 1,
        forall|value: u8| 1 <= value <= 12 ==> copies_of(DeckView::fresh(seed).cards, value) == value,
        forall|value: u8| value > 12 ==> copies_of(DeckView::fresh(seed).cards, value) == 0,
{
    lemma_standard_cards_counts();
}

/// Shuffling is a permutation: the shuffled deck has as many cards as
/// before, and each card as often as before.
pub proof fn law_shuffle_is_permutation(deck: DeckView)
    ensures
        deck.shuffle().cards.len() == deck.cards.len(),
        deck.shuffle().cards.to_multiset() == deck.cards.to_multiset(),
        forall|value: u8| copies_of(deck.shuffle().cards, value) == copies_of(deck.cards, value),
{
    let draws = crate::deck::shuffle_draws(deck.cards.len());
    lemma_shuffled_is_permutation(deck.cards, deck.rng.words(draws));
}

/// Two decks built apart from one seed come out of their shuffles in the
/// same order, and with generators that will go on alike.
pub proof fn law_shuffle_is_reproducible(seed: u64, first: DeckView, second: DeckView)
    requires
        first == DeckView::fresh(seed),
        second == DeckView::fresh(seed),
    ensures
        first.shuffle().cards == second.shuffle().cards,
        first.shuffle().rng == second.shuffle().rng,
{
}

/// The turn goes round the table: after a draw or a stay that was accepted,
/// it is the turn of the next seat, and of the first seat after the last.
/// This is said of tables that a game can hold, whose seats can be counted
/// in a `usize`.
pub proof fn law_turn_goes_round(game: GameView, id: Seq<char>)
    requires
        game.players.len() <= usize::MAX,
    ensures
        game.draw_result(id) is Ok ==> game.after_draw(id).turn() == (game.turn() + 1)
            % (game.players.len() as int),
        game.stay_result(id) is Ok ==> game.after_stay(id).turn() == (game.turn() + 1)
            % (game.players.len() as int),
{
    if game.turn_is_seated() {
        lemma_next_turn_is_modular(game);
    }
}

/// Once the turn points at a player it keeps doing so, whatever is asked.
pub proof fn law_turn_stays_seated(game: GameView, id: Seq<char>)
    requires
        game.turn_is_seated(),
    ensures
        game.after_draw(id).turn_is_seated(),
        game.after_stay(id).turn_is_seated(),
        game.after_scoring().turn_is_seated(),
{
}

/// A round that starts has the turn at the first seat, nobody stayed, and is
/// not finished; the number of the round and the players' ids, names and
/// scores are as before.
pub proof fn law_start_opens_round(game: GameView)
    requires
        game.start_result() is Ok,
    ensures
        game.after_start().turn() == 0,
        game.after_start().turn_is_seated(),
        !game.after_start().round.is_finished,
        !game.after_start().all_stayed(),
        game.after_start().round.round_number == game.round.round_number,
        game.after_start().players.len() == game.players.len(),
        forall|seat: int|
            0 <= seat < game.players.len() ==> {
                let before = #[trigger] game.players[seat];
                let after = game.after_start().players[seat];
                after.id == before.id && after.name == before.name && after.score == before.score
                    && !after.has_stayed
            },
{
    assert(!game.after_start().players[0].has_stayed);
}

/// A draw that takes the hand over 21 leaves the player stayed, with no
/// stay asked for; a draw that does not, leaves the player free to go on.
pub proof fn law_bust_draw_stays(game: GameView, id: Seq<char>)
    requires
        game.draw_result(id) is Ok,
    ensures
        game.after_draw(id).players[game.turn()].hand == game.players[game.turn()].hand.push(
            game.deck.cards.last(),
        ),
        game.after_draw(id).players[game.turn()].has_stayed == (total_of(
            game.after_draw(id).players[game.turn()].hand,
        ) > 21),
{
}

/// A player who has stayed cannot draw: the request is refused and nothing
/// changes.
pub proof fn law_stayed_player_cannot_draw(game: GameView, id: Seq<char>)
    requires
        game.is_turn_of(id),
        game.players[game.turn()].has_stayed,
    ensures
        game.draw_result(id) is Err,
        !game.round.is_finished ==> game.draw_result(id) == Err::<(), GameError>(
            GameError::AlreadyStayed,
        ),
        game.after_draw(id) == game,
{
}

/// Whoever has stayed keeps the stay flag and the hand through every draw,
/// stay and scoring: only the start of a round gives new cards.
pub proof fn law_stayed_hand_is_closed(game: GameView, id: Seq<char>, seat: int)
    requires
        0 <= seat < game.players.len(),
        game.players[seat].has_stayed,
    ensures
        game.after_draw(id).players[seat].has_stayed,
        game.after_draw(id).players[seat].hand == game.players[seat].hand,
        game.after_stay(id).players[seat].has_stayed,
        game.after_stay(id).players[seat].hand == game.players[seat].hand,
        game.after_scoring().players[seat].has_stayed,
        game.after_scoring().players[seat].hand == game.players[seat].hand,
{
}

/// A round that is not finished becomes finished by exactly those draws and
/// stays that are accepted and leave every player stayed.
pub proof fn law_round_finishes_with_last_stay(game: GameView, id: Seq<char>)
    requires
        !game.round.is_finished,
    ensures
        game.after_draw(id).round.is_finished == (game.draw_result(id) is Ok && game.after_draw(
            id,
        ).all_stayed()),
        game.after_stay(id).round.is_finished == (game.stay_result(id) is Ok && game.after_stay(
            id,
        ).all_stayed()),
{
}

/// A finished round accepts no draw and no stay and stays finished; scoring
/// does not reopen it.
pub proof fn law_finished_round_stays_finished(game: GameView, id: Seq<char>)
    requires
        game.round.is_finished,
    ensures
        game.draw_result(id) == Err::<(), GameError>(GameError::RoundAlreadyFinished),
        game.stay_result(id) == Err::<(), GameError>(GameError::RoundAlreadyFinished),
        game.after_draw(id) == game,
        game.after_stay(id) == game,
        game.after_scoring().round.is_finished,
{
}

/// Whether the round's flag says what the players' flags say: the turn points
/// at a player, and the round is finished exactly if every player has stayed.
pub open spec fn round_in_order(game: GameView) -> bool {
    game.turn_is_seated() && game.round.is_finished == game.all_stayed()
}

/// From the start of a round on, through every draw, stay and scoring, the
/// round is finished exactly if every player has stayed.
pub proof fn law_round_stays_in_order(game: GameView, id: Seq<char>)
    ensures
        game.start_result() is Ok ==> round_in_order(game.after_start()),
        round_in_order(game) ==> round_in_order(game.after_draw(id)),
        round_in_order(game) ==> round_in_order(game.after_stay(id)),
        round_in_order(game) ==> round_in_order(game.after_scoring()),
{
    if game.start_result() is Ok {
        law_start_opens_round(game);
    }
    if round_in_order(game) {
        law_turn_stays_seated(game, id);
        if !game.round.is_finished {
            law_round_finishes_with_last_stay(game, id);
        }
        let scored = game.after_scoring();
        assert(scored.all_stayed() == game.all_stayed()) by {
            if game.all_stayed() {
                assert forall|seat: int| 0 <= seat < scored.players.len() implies (
                #[trigger] scored.players[seat]).has_stayed by {
                    assert(game.players[seat].has_stayed);
                }
            } else {
                let seat = choose|seat: int|
                    0 <= seat < game.players.len() && !(#[trigger] game.players[seat]).has_stayed;
                assert(!scored.players[seat].has_stayed);
            }
        }
    }
}

/// With no card left, the draw of the player whose turn it is fails for want
/// of cards, and hands, deck and turn are as before.
pub proof fn law_empty_deck_refuses_draw(game: GameView, id: Seq<char>)
    requires
        game.deck.cards.len() == 0,
    ensures
        game.draw_result(id) is Err,
        game.after_draw(id) == game,
        !game.round.is_finished && game.is_turn_of(id) && !game.players[game.turn()].has_stayed
            ==> game.draw_result(id) == Err::<(), GameError>(GameError::DeckExhausted),
{
}

/// Scoring adds to each score exactly what the hand is worth, which is 21
/// at most, so no score ever falls; it counts the round, and leaves ids,
/// names, hands and stay flags alone.
pub proof fn law_scoring_adds_round_score(game: GameView, seat: int)
    requires
        game.scores_fit(),
        0 <= seat < game.players.len(),
    ensures
        game.after_scoring().players[seat].score == game.players[seat].score
            + game.players[seat].round_score(),
        game.after_scoring().players[seat].score >= game.players[seat].score,
        game.players[seat].round_score() <= 21,
        game.after_scoring().round.round_number == game.round.round_number + 1,
        game.after_scoring().players[seat].id == game.players[seat].id,
        game.after_scoring().players[seat].name == game.players[seat].name,
        game.after_scoring().players[seat].hand == game.players[seat].hand,
        game.after_scoring().players[seat].has_stayed == game.players[seat].has_stayed,
{
}

/// All the cards in the hands of `players`.
pub open spec fn cards_held(players: Seq<PlayerView>) -> Multiset<Card>
    decreases players.len(),
{
    if players.len() == 0 {
        Multiset::empty()
    } else {
        cards_held(players.drop_last()).add(players.last().hand.to_multiset())
    }
}

/// All the cards of a game: those in the deck and those in the hands.
pub open spec fn cards_in_play(game: GameView) -> Multiset<Card> {
    game.deck.cards.to_multiset().add(cards_held(game.players))
}

/// The cards that one pass round `seats` players hands out, when the pass
/// begins `depth` cards below the top of `deck`.
pub open spec fn cards_of_pass(deck: Seq<Card>, depth: int, seats: nat) -> Multiset<Card>
    decreases seats,
{
    if seats == 0 {
        Multiset::empty()
    } else {
        cards_of_pass(deck, depth, (seats - 1) as nat).add(
            nth_from_top(deck, depth + seats - 1).to_multiset(),
        )
    }
}

/// The cards held are a matter of the hands alone.
proof fn lemma_cards_held_by_hands(first: Seq<PlayerView>, second: Seq<PlayerView>)
    requires
        first.len() == second.len(),
        forall|seat: int| 0 <= seat < first.len() ==> first[seat].hand == second[seat].hand,
    ensures
        cards_held(first) == cards_held(second),
    decreases first.len(),
{
    if first.len() > 0 {
        lemma_cards_held_by_hands(first.drop_last(), second.drop_last());
    }
}

/// A card added to one hand is a card added to the cards held.
proof fn lemma_cards_held_with_card(players: Seq<PlayerView>, seat: int, mover: PlayerView, card: Card)
    requires
        0 <= seat < players.len(),
        mover.hand == players[seat].hand.push(card),
    ensures
        cards_held(players.update(seat, mover)) == cards_held(players).insert(card),
    decreases players.len(),
{
    broadcast use vstd::seq_lib::to_multiset_build;

    let moved = players.update(seat, mover);
    if seat == players.len() - 1 {
        assert(moved.drop_last() =~= players.drop_last());
        assert(cards_held(moved) =~= cards_held(players).insert(card));
    } else {
        assert(moved.drop_last() =~= players.drop_last().update(seat, mover));
        lemma_cards_held_with_card(players.drop_last(), seat, mover, card);
        assert(cards_held(moved) =~= cards_held(players).insert(card));
    }
}

/// The card at a depth and what lies below it are what lies from that depth
/// down.
proof fn lemma_deck_after_one(deck: Seq<Card>, depth: int)
    requires
        0 <= depth,
    ensures
        nth_from_top(deck, depth).to_multiset().add(deck_after(deck, depth + 1).to_multiset())
            == deck_after(deck, depth).to_multiset(),
{
    broadcast use vstd::seq_lib::to_multiset_build;

    Seq::<Card>::empty().to_multiset_ensures();
    if depth < deck.len() {
        let card = deck[deck.len() - 1 - depth];
        assert(deck_after(deck, depth) =~= deck_after(deck, depth + 1).push(card));
        assert(nth_from_top(deck, depth) =~= Seq::<Card>::empty().push(card));
        assert(nth_from_top(deck, depth).to_multiset().add(
            deck_after(deck, depth + 1).to_multiset(),
        ) =~= deck_after(deck, depth).to_multiset());
    } else {
        assert(nth_from_top(deck, depth).to_multiset().add(
            deck_after(deck, depth + 1).to_multiset(),
        ) =~= deck_after(deck, depth).to_multiset());
    }
}

/// What a pass hands out and what it leaves are what it found.
proof fn lemma_pass_takes_from_deck(deck: Seq<Card>, depth: int, seats: nat)
    requires
        0 <= depth,
    ensures
        cards_of_pass(deck, depth, seats).add(deck_after(deck, depth + seats).to_multiset())
            == deck_after(deck, depth).to_multiset(),
    decreases seats,
{
    if seats == 0 {
        assert(cards_of_pass(deck, depth, seats).add(
            deck_after(deck, depth + seats).to_multiset(),
        ) =~= deck_after(deck, depth).to_multiset());
    } else {
        lemma_pass_takes_from_deck(deck, depth, (seats - 1) as nat);
        lemma_deck_after_one(deck, depth + seats - 1);
        assert(cards_of_pass(deck, depth, seats).add(
            deck_after(deck, depth + seats).to_multiset(),
        ) =~= deck_after(deck, depth).to_multiset());
    }
}

/// The hands of the first `upto` players after the deal hold what the two
/// passes handed those players.
proof fn lemma_dealt_hands_hold_passes(deck: Seq<Card>, players: Seq<PlayerView>, upto: nat)
    requires
        upto <= players.len(),
        forall|seat: int|
            0 <= seat < players.len() ==> players[seat].hand == dealt_hand(
                deck,
                players.len(),
                seat,
                2,
            ),
    ensures
        cards_held(players.take(upto as int)) == cards_of_pass(deck, 0, upto).add(
            cards_of_pass(deck, players.len() as int, upto),
        ),
    decreases upto,
{
    let seats = players.len();
    if upto == 0 {
        assert(cards_held(players.take(0)) =~= cards_of_pass(deck, 0, 0).add(
            cards_of_pass(deck, seats as int, 0),
        ));
    } else {
        let seat = upto - 1;
        lemma_dealt_hands_hold_passes(deck, players, seat as nat);
        assert(players.take(upto as int).drop_last() =~= players.take(seat));
        assert(players.take(upto as int).last() == players[seat]);
        let first = nth_from_top(deck, seat);
        let second = nth_from_top(deck, seats + seat);
        assert(players[seat].hand =~= first + second) by {
            assert((1 - 1) * seats + seat == seat) by (nonlinear_arith);
            assert((2 - 1) * seats + seat == seats + seat) by (nonlinear_arith);
            assert(dealt_hand(deck, seats, seat, 0) =~= Seq::<Card>::empty());
            assert(dealt_hand(deck, seats, seat, 1) =~= dealt_hand(deck, seats, seat, 0) + first);
            assert(dealt_hand(deck, seats, seat, 2) =~= dealt_hand(deck, seats, seat, 1) + second);
        }
        vstd::seq_lib::lemma_multiset_commutative(first, second);
        assert(cards_held(players.take(upto as int)) =~= cards_of_pass(deck, 0, upto).add(
            cards_of_pass(deck, seats as int, upto),
        ));
    }
}

/// No card is lost and none is made: a round starts with exactly the cards
/// of the standard deck in deck and hands together, and every draw, stay
/// and scoring leaves the cards of deck and hands together as they were. A
/// card that has been drawn is in a hand, so it cannot come from the deck
/// again before the next round starts.
pub proof fn law_cards_are_conserved(game: GameView, id: Seq<char>)
    ensures
        game.start_result() is Ok ==> cards_in_play(game.after_start())
            == standard_cards().to_multiset(),
        cards_in_play(game.after_draw(id)) == cards_in_play(game),
        cards_in_play(game.after_stay(id)) == cards_in_play(game),
        cards_in_play(game.after_scoring()) == cards_in_play(game),
{
    broadcast use vstd::seq_lib::to_multiset_build;

    if game.start_result() is Ok {
        let deck = game.round_deck();
        let started = game.after_start();
        let seats = game.players.len();
        law_shuffle_is_permutation(DeckView::fresh(round_seed(game.round.round_number)));
        lemma_dealt_hands_hold_passes(deck.cards, started.players, seats);
        assert(started.players.take(seats as int) =~= started.players);
        lemma_pass_takes_from_deck(deck.cards, seats as int, seats);
        lemma_pass_takes_from_deck(deck.cards, 0, seats);
        assert(deck_after(deck.cards, 0) =~= deck.cards);
        assert(2 * seats == seats + seats);
        assert(cards_in_play(started) =~= deck.cards.to_multiset());
    }
    if game.draw_result(id) is Ok {
        let card = game.deck.cards.last();
        let drawn = game.players[game.turn()].with_card(card);
        let mover = PlayerView { has_stayed: drawn.is_bust(), ..drawn };
        lemma_cards_held_with_card(game.players, game.turn(), mover, card);
        assert(game.deck.cards =~= game.deck.cards.drop_last().push(card));
        assert(cards_in_play(game.after_draw(id)) =~= cards_in_play(game));
    }
    lemma_cards_held_by_hands(game.after_stay(id).players, game.players);
    lemma_cards_held_by_hands(game.after_scoring().players, game.players);
}

} // verus!
