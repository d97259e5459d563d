//! The game: the players in turn order, the deck and the state of the round,
//! with the operations that move a round from the deal to the scores.

use crate::card::Card;
use crate::deck::{Deck, DeckView};
use crate::error::GameError;
use crate::hand::holds_flip7;
use crate::player::{Player, PlayerView};
use crate::round::RoundState;
use crate::text::same_text;
use vstd::hash_map::StringHashMap;
use vstd::prelude::*;

verus! {

/// The seed of the deck that a new game holds before its first round.
pub const DEFAULT_SEED: u64 = 42;

/// Every round's deck is seeded with this number plus the round's number.
pub const ROUND_SEED_BASE: u64 = 42;

/// How many cards each player is dealt at the start of a round.
pub const CARDS_DEALT: usize = 2;

/// The seed of the deck for the round with the given number.
pub open spec fn round_seed(round_number: u32) -> u64 {
    (ROUND_SEED_BASE + round_number) as u64
}

/// The card that lies `depth` cards below the top of `deck`, as a sequence of
/// one card; the empty sequence where the deck has no such card.
pub open spec fn nth_from_top(deck: Seq<Card>, depth: int) -> Seq<Card> {
    if 0 <= depth < deck.len() {
        seq![deck[deck.len() - 1 - depth]]
    } else {
        Seq::empty()
    }
}

/// What is left of `deck` after `dealt` attempts to take the top card.
pub open spec fn deck_after(deck: Seq<Card>, dealt: int) -> Seq<Card> {
    if dealt >= deck.len() {
        Seq::empty()
    } else {
        deck.take(deck.len() - dealt)
    }
}

/// The hand of the player in `seat` after `passes` passes round a table of
/// `seats` players, each pass giving every player in turn the top card of
/// `deck` for as long as a card is left.
pub open spec fn dealt_hand(deck: Seq<Card>, seats: nat, seat: int, passes: nat) -> Seq<Card>
    decreases passes,
{
    if passes == 0 {
        Seq::empty()
    } else {
        dealt_hand(deck, seats, seat, (passes - 1) as nat) + nth_from_top(
            deck,
            (passes - 1) * seats + seat,
        )
    }
}

/// The round scores by player id. Where several players share an id, the
/// one latest in turn order counts.
pub open spec fn score_table(players: Seq<PlayerView>) -> Map<Seq<char>, u32>
    decreases players.len(),
{
    if players.len() == 0 {
        Map::empty()
    } else {
        score_table(players.drop_last()).insert(players.last().id, players.last().round_score())
    }
}

/// What the players are to the rules, seat by seat.
pub open spec fn player_views(players: Seq<Player>) -> Seq<PlayerView> {
    Seq::new(players.len(), |seat: int| players[seat]@)
}

/// Whether every one of `players` has stayed.
pub open spec fn everyone_stayed(players: Seq<PlayerView>) -> bool {
    forall|seat: int| 0 <= seat < players.len() ==> (#[trigger] players[seat]).has_stayed
}

/// The first seat whose player has the given id.
pub open spec fn seat_of(players: Seq<PlayerView>, id: Seq<char>) -> Option<int> {
    if exists|seat: int| 0 <= seat < players.len() && players[seat].id == id {
        Some(
            choose|seat: int|
                0 <= seat < players.len() && players[seat].id == id && forall|before: int|
                    0 <= before < seat ==> players[before].id != id,
        )
    } else {
        None
    }
}

/// The whole state of a game.
#[derive(Debug)]
pub struct GameState {
    pub players: Vec<Player>,
    pub deck: Deck,
    pub round_state: RoundState,
}

/// What a game is to the rules.
pub struct GameView {
    pub players: Seq<PlayerView>,
    pub deck: DeckView,
    pub round: RoundState,
}

impl View for GameState {
    type V = GameView;

    open spec fn view(&self) -> GameView {
        GameView {
            players: player_views(self.players@),
            deck: self.deck@,
            round: self.round_state,
        }
    }
}

impl Clone for GameState {
    /// A game in the same state.
    fn clone(&self) -> (copy: Self)
        ensures
            copy@ == self@,
    {
        let players = self.players.clone();
        let copy = GameState {
            players,
            deck: self.deck.clone(),
            round_state: self.round_state.clone(),
        };
        assert(copy@.players =~= self@.players);
        copy
    }
}

impl GameView {
    /// A game with no players, the unshuffled deck for `seed` and the round
    /// state before the first round.
    pub open spec fn created(seed: u64) -> GameView {
        GameView {
            players: Seq::empty(),
            deck: DeckView::fresh(seed),
            round: RoundState::initial(),
        }
    }

    /// The seat whose turn it is.
    pub open spec fn turn(self) -> int {
        self.round.current_player_index as int
    }

    /// Whether the turn points at a player.
    pub open spec fn turn_is_seated(self) -> bool {
        self.turn() < self.players.len()
    }

    /// Whether it is the turn of a player with the given id.
    pub open spec fn is_turn_of(self, id: Seq<char>) -> bool {
        self.turn_is_seated() && self.players[self.turn()].id == id
    }

    /// Whether every player has stayed.
    pub open spec fn all_stayed(self) -> bool {
        everyone_stayed(self.players)
    }

    /// The game with one more player at the end of the turn order.
    pub open spec fn with_player(self, id: Seq<char>, name: Seq<char>) -> GameView {
        GameView { players: self.players.push(PlayerView::joined(id, name)), ..self }
    }

    /// The seat that moves after the one whose turn it is: the next one, and
    /// the first one after the last. For a turn that points at a player this
    /// is `(turn + 1) % players.len()`.
    pub open spec fn next_turn(self) -> int {
        if self.turn() + 1 < self.players.len() {
            self.turn() + 1
        } else {
            0
        }
    }

    /// The game with the turn passed to the next seat, round the table, and
    /// the round finished if every player has stayed.
    pub open spec fn turn_advanced(self) -> GameView {
        GameView {
            round: RoundState {
                current_player_index: self.next_turn() as usize,
                is_finished: self.round.is_finished || self.all_stayed(),
                ..self.round
            },
            ..self
        }
    }

    /// How a request of the player `id` to draw is answered.
    pub open spec fn draw_result(self, id: Seq<char>) -> Result<(), GameError> {
        if self.round.is_finished {
            Err(GameError::RoundAlreadyFinished)
        } else if !self.is_turn_of(id) {
            Err(GameError::NotYourTurn)
        } else if self.players[self.turn()].has_stayed {
            Err(GameError::AlreadyStayed)
        } else if self.deck.cards.len() == 0 {
            Err(GameError::DeckExhausted)
        } else {
            Ok(())
        }
    }

    /// The game after a request of the player `id` to draw: unchanged where
    /// the request is refused; else the top card has gone to the player's
    /// hand, the player has stayed if that made the hand bust, and the turn
    /// has advanced.
    pub open spec fn after_draw(self, id: Seq<char>) -> GameView {
        if self.draw_result(id) is Ok {
            let drawn = self.players[self.turn()].with_card(self.deck.cards.last());
            let mover = PlayerView { has_stayed: drawn.is_bust(), ..drawn };
            GameView {
                players: self.players.update(self.turn(), mover),
                deck: DeckView { cards: self.deck.cards.drop_last(), ..self.deck },
                ..self
            }.turn_advanced()
        } else {
            self
        }
    }

    /// How a request of the player `id` to stay is answered.
    pub open spec fn stay_result(self, id: Seq<char>) -> Result<(), GameError> {
        if self.round.is_finished {
            Err(GameError::RoundAlreadyFinished)
        } else if !self.is_turn_of(id) {
            Err(GameError::NotYourTurn)
        } else {
            Ok(())
        }
    }

    /// The game after a request of the player `id` to stay: unchanged where
    /// the request is refused; else the player has stayed and the turn has
    /// advanced.
    pub open spec fn after_stay(self, id: Seq<char>) -> GameView {
        if self.stay_result(id) is Ok {
            GameView {
                players: self.players.update(self.turn(), self.players[self.turn()].stayed()),
                ..self
            }.turn_advanced()
        } else {
            self
        }
    }

    /// How a request to start a round is answered.
    pub open spec fn start_result(self) -> Result<(), GameError> {
        if self.players.len() == 0 {
            Err(GameError::InvalidSetup)
        } else {
            Ok(())
        }
    }

    /// The deck that the round with this game's round number is dealt from:
    /// the standard deck, shuffled by the generator for the round's seed.
    pub open spec fn round_deck(self) -> DeckView {
        DeckView::fresh(round_seed(self.round.round_number)).shuffle()
    }

    /// The game after a request to start a round: unchanged without players;
    /// else every player holds the cards dealt from the round's deck, in two
    /// passes round the table, nobody has stayed, the first player is to
    /// move and the round is not finished.
    pub open spec fn after_start(self) -> GameView {
        if self.start_result() is Ok {
            let deck = self.round_deck();
            let seats = self.players.len();
            GameView {
                players: Seq::new(
                    seats,
                    |seat: int|
                        PlayerView {
                            hand: dealt_hand(deck.cards, seats, seat, CARDS_DEALT as nat),
                            has_stayed: false,
                            ..self.players[seat]
                        },
                ),
                deck: DeckView { cards: deck_after(deck.cards, CARDS_DEALT * seats), ..deck },
                round: RoundState { current_player_index: 0, is_finished: false, ..self.round },
            }
        } else {
            self
        }
    }

    /// Whether the scores of the round can be added up: no player's score
    /// and not the round number would leave the range of their type.
    pub open spec fn scores_fit(self) -> bool {
        &&& self.round.round_number < u32::MAX
        &&& forall|seat: int|
            0 <= seat < self.players.len() ==> (#[trigger] self.players[seat]).score
                + self.players[seat].round_score() <= u32::MAX
    }

    /// The game after scoring: every player's score has grown by what the
    /// hand is worth, and the round number by one.
    pub open spec fn after_scoring(self) -> GameView {
        GameView {
            players: Seq::new(self.players.len(), |seat: int| self.players[seat].scored()),
            round: RoundState {
                round_number: (self.round.round_number + 1) as u32,
                ..self.round
            },
            ..self
        }
    }

    /// How the question whether the player `id` holds a Flip7 is answered.
    pub open spec fn flip7_of(self, id: Seq<char>) -> Result<bool, GameError> {
        match seat_of(self.players, id) {
            Some(seat) => Ok(holds_flip7(self.players[seat].hand)),
            None => Err(GameError::PlayerNotFound),
        }
    }
}

/// For a turn that points at a player, the next turn is the turn plus one,
/// modulo the number of players.
pub proof fn lemma_next_turn_is_modular(game: GameView)
    requires
        game.turn_is_seated(),
    ensures
        game.next_turn() == (game.turn() + 1) % (game.players.len() as int),
        0 <= game.next_turn() < game.players.len(),
{
    let seats = game.players.len() as int;
    if game.turn() + 1 < seats {
        vstd::arithmetic::div_mod::lemma_small_mod((game.turn() + 1) as nat, seats as nat);
    } else {
        vstd::arithmetic::div_mod::lemma_mod_self_0(seats);
    }
}

impl GameState {
    /// A game without players, with the default seed.
    pub fn new() -> (game: Self)
        ensures
            game@ == GameView::created(DEFAULT_SEED),
    {
        Self::new_with_seed(DEFAULT_SEED)
    }

    /// A game without players whose first deck is seeded with `seed`.
    pub fn new_with_seed(seed: u64) -> (game: Self)
        ensures
            game@ == GameView::created(seed),
    {
        let game = Self { players: Vec::new(), deck: Deck::new(seed), round_state: RoundState::new() };
        assert(game@.players =~= Seq::empty());
        game
    }

    /// Seats a new player behind those already there.
    pub fn add_player(&mut self, id: String, name: String)
        ensures
            final(self)@ == old(self)@.with_player(id@, name@),
    {
        let player = Player::new(id, name);
        self.players.push(player);
        assert(self@.players =~= old(self)@.players.push(PlayerView::joined(id@, name@)));
    }

    /// Whether every player has stayed.
    fn everyone_stayed(&self) -> (everyone: bool)
        ensures
            everyone == self@.all_stayed(),
    {
        let mut seat: usize = 0;
        while seat < self.players.len()
            invariant
                seat <= self.players.len(),
                self@.players.len() == self.players.len(),
                forall|s: int| 0 <= s < seat ==> (#[trigger] self@.players[s]).has_stayed,
            decreases self.players.len() - seat,
        {
            if !self.players[seat].has_stayed {
                assert(!self@.players[seat as int].has_stayed);
                return false;
            }
            seat += 1;
        }
        true
    }

    /// Starts a round: every player gives up hand and stay flag, a fresh
    /// deck seeded for this round is shuffled, and two passes round the table
    /// give every player in turn the top card, for as long as cards are left.
    /// The first player is then to move.
    pub fn start_round(&mut self) -> (result: Result<(), GameError>)
        ensures
            result == old(self)@.start_result(),
            final(self)@ == old(self)@.after_start(),
    {
        if self.players.is_empty() {
            return Err(GameError::InvalidSetup);
        }
        let seats = self.players.len();
        let mut seat: usize = 0;
        while seat < seats
            invariant
                seat <= seats,
                seats == self.players.len(),
                seats == old(self).players.len(),
                self.round_state == old(self).round_state,
                forall|s: int| 0 <= s < seat ==> self.players@[s]@ == old(self).players@[s]@.reset(),
                forall|s: int| seat <= s < seats ==> self.players@[s]@ == old(self).players@[s]@,
            decreases seats - seat,
        {
            self.players[seat].reset_for_round();
            seat += 1;
        }

        self.deck = Deck::new(ROUND_SEED_BASE + self.round_state.round_number as u64);
        self.deck.shuffle();
        let ghost deck = old(self)@.round_deck();
        assert(self.deck@ == deck);

        let mut pass: usize = 0;
        let ghost mut dealt: int = 0;
        while pass < CARDS_DEALT
            invariant
                pass <= CARDS_DEALT,
                seats == self.players.len(),
                seats == old(self).players.len(),
                self.round_state == old(self).round_state,
                deck == old(self)@.round_deck(),
                dealt == pass * seats,
                self.deck.rng == deck.rng,
                self.deck.cards@ == deck_after(deck.cards, dealt),
                forall|s: int|
                    0 <= s < seats ==> self.players@[s]@ == (PlayerView {
                        hand: dealt_hand(deck.cards, seats as nat, s, pass as nat),
                        ..old(self).players@[s]@.reset()
                    }),
            decreases CARDS_DEALT - pass,
        {
            let mut seat: usize = 0;
            while seat < seats
                invariant
                    pass < CARDS_DEALT,
                    seat <= seats,
                    seats == self.players.len(),
                    seats == old(self).players.len(),
                    self.round_state == old(self).round_state,
                    dealt == pass * seats + seat,
                    self.deck.rng == deck.rng,
                    self.deck.cards@ == deck_after(deck.cards, dealt),
                    forall|s: int|
                        0 <= s < seat ==> self.players@[s]@ == (PlayerView {
                            hand: dealt_hand(deck.cards, seats as nat, s, (pass + 1) as nat),
                            ..old(self).players@[s]@.reset()
                        }),
                    forall|s: int|
                        seat <= s < seats ==> self.players@[s]@ == (PlayerView {
                            hand: dealt_hand(deck.cards, seats as nat, s, pass as nat),
                            ..old(self).players@[s]@.reset()
                        }),
                decreases seats - seat,
            {
                let ghost held = self.players@[seat as int]@.hand;
                match self.deck.draw() {
                    Some(card) => {
                        self.players[seat].draw_card(card);
                        assert(held.push(card) =~= held + nth_from_top(deck.cards, dealt));
                    },
                    None => {
                        assert(held =~= held + nth_from_top(deck.cards, dealt));
                    },
                }
                assert(self.deck.cards@ =~= deck_after(deck.cards, dealt + 1));
                proof {
                    dealt = dealt + 1;
                }
                seat += 1;
            }
            assert((pass + 1) * seats == pass * seats + seats) by (nonlinear_arith);
            pass += 1;
        }

        self.round_state.current_player_index = 0;
        self.round_state.is_finished = false;
        assert(self@.players =~= old(self)@.after_start().players);
        Ok(())
    }

    /// Passes the turn to the next player and finishes the round once every
    /// player has stayed.
    fn advance_turn(&mut self)
        requires
            old(self)@.turn_is_seated(),
        ensures
            final(self)@ == old(self)@.turn_advanced(),
    {
        assert(self@.players.len() == self.players.len());
        assert(self@.next_turn() == (self@.turn() + 1) % (self.players.len() as int)) by {
            lemma_next_turn_is_modular(self@);
        }
        let everyone = self.everyone_stayed();
        self.round_state.current_player_index = (self.round_state.current_player_index + 1)
            % self.players.len();
        if everyone {
            self.round_state.is_finished = true;
        }
    }

    /// Gives the player whose turn it is the top card of the deck, then
    /// passes the turn. A player whose hand goes bust has stayed.
    pub fn player_draw(&mut self, player_id: &str) -> (result: Result<(), GameError>)
        ensures
            result == old(self)@.draw_result(player_id@),
            final(self)@ == old(self)@.after_draw(player_id@),
    {
        if self.round_state.is_finished {
            return Err(GameError::RoundAlreadyFinished);
        }
        let turn = self.round_state.current_player_index;
        if turn >= self.players.len() || !same_text(&self.players[turn].id, player_id) {
            return Err(GameError::NotYourTurn);
        }
        if self.players[turn].has_stayed {
            return Err(GameError::AlreadyStayed);
        }
        match self.deck.draw() {
            Some(card) => {
                self.players[turn].draw_card(card);
                if self.players[turn].hand.is_bust() {
                    self.players[turn].stay();
                }
                proof {
                    let drawn = old(self)@.players[turn as int].with_card(card);
                    let mover = PlayerView { has_stayed: drawn.is_bust(), ..drawn };
                    assert(self@.players =~= old(self)@.players.update(turn as int, mover));
                }
                self.advance_turn();
                Ok(())
            },
            None => Err(GameError::DeckExhausted),
        }
    }

    /// Marks the player whose turn it is as stayed, then passes the turn.
    pub fn player_stay(&mut self, player_id: &str) -> (result: Result<(), GameError>)
        ensures
            result == old(self)@.stay_result(player_id@),
            final(self)@ == old(self)@.after_stay(player_id@),
    {
        if self.round_state.is_finished {
            return Err(GameError::RoundAlreadyFinished);
        }
        let turn = self.round_state.current_player_index;
        if turn >= self.players.len() || !same_text(&self.players[turn].id, player_id) {
            return Err(GameError::NotYourTurn);
        }
        self.players[turn].stay();
        proof {
            assert(self@.players =~= old(self)@.players.update(
                turn as int,
                old(self)@.players[turn as int].stayed(),
            ));
        }
        self.advance_turn();
        Ok(())
    }

    /// Whether the round can be scored without a score or the round number
    /// leaving the range of its type: what `compute_scores` asks of its caller.
    pub fn can_compute_scores(&self) -> (fit: bool)
        ensures
            fit == self@.scores_fit(),
    {
        if self.round_state.round_number == u32::MAX {
            return false;
        }
        let mut seat: usize = 0;
        while seat < self.players.len()
            invariant
                seat <= self.players.len(),
                self@.players.len() == self.players.len(),
                forall|s: int|
                    0 <= s < seat ==> (#[trigger] self@.players[s]).score
                        + self@.players[s].round_score() <= u32::MAX,
            decreases self.players.len() - seat,
        {
            let round_score = self.players[seat].round_score();
            if self.players[seat].score > u32::MAX - round_score {
                assert(self@.players[seat as int].score + self@.players[seat as int].round_score()
                    > u32::MAX);
                return false;
            }
            seat += 1;
        }
        true
    }

    /// Scores the round: adds to every player's score what the hand is
    /// worth, counts the round, and returns the round scores by player id.
    /// A Flip7 is looked for first, so it counts even in a bust hand.
    pub fn compute_scores(&mut self) -> (scores: StringHashMap<u32>)
        requires
            old(self)@.scores_fit(),
        ensures
            final(self)@ == old(self)@.after_scoring(),
            scores@ == score_table(old(self)@.players),
    {
        let mut scores: StringHashMap<u32> = StringHashMap::new();
        let mut seat: usize = 0;
        assert(old(self)@.players.take(0) =~= Seq::empty());
        while seat < self.players.len()
            invariant
                seat <= self.players.len(),
                self.players.len() == old(self).players.len(),
                self.deck == old(self).deck,
                self.round_state == old(self).round_state,
                old(self)@.scores_fit(),
                forall|s: int| 0 <= s < seat ==> self.players@[s]@ == old(self).players@[s]@.scored(),
                forall|s: int|
                    seat <= s < self.players.len() ==> self.players@[s]@ == old(self).players@[s]@,
                scores@ == score_table(old(self)@.players.take(seat as int)),
            decreases self.players.len() - seat,
        {
            let ghost before = old(self)@.players[seat as int];
            let round_score = self.players[seat].round_score();
            assert(before.score + before.round_score() <= u32::MAX);
            self.players[seat].score += round_score;
            let id = self.players[seat].id.clone();
            scores.insert(id, round_score);
            assert(old(self)@.players.take(seat + 1).drop_last() =~= old(self)@.players.take(
                seat as int,
            ));
            seat += 1;
        }
        self.round_state.round_number += 1;
        assert(old(self)@.players.take(seat as int) =~= old(self)@.players);
        assert(self@.players =~= old(self)@.after_scoring().players);
        scores
    }

    /// Scores the round where `can_compute_scores` holds; where it does not,
    /// nothing is scored and the game stays as it is.
    pub fn try_compute_scores(&mut self) -> (scores: Option<StringHashMap<u32>>)
        ensures
            scores is Some == old(self)@.scores_fit(),
            match scores {
                Some(table) => final(self)@ == old(self)@.after_scoring() && table@ == score_table(
                    old(self)@.players,
                ),
                None => final(self)@ == old(self)@,
            },
    {
        if self.can_compute_scores() {
            Some(self.compute_scores())
        } else {
            None
        }
    }

    /// Whether the first player with the given id holds a Flip7.
    pub fn is_flip7(&self, player_id: &str) -> (result: Result<bool, GameError>)
        ensures
            result == self@.flip7_of(player_id@),
    {
        let mut seat: usize = 0;
        while seat < self.players.len()
            invariant
                seat <= self.players.len(),
                self@.players.len() == self.players.len(),
                forall|s: int| 0 <= s < seat ==> (#[trigger] self@.players[s]).id != player_id@,
            decreases self.players.len() - seat,
        {
            if same_text(&self.players[seat].id, player_id) {
                assert(self@.players[seat as int].id == player_id@);
                return Ok(self.players[seat].hand.has_flip7());
            }
            seat += 1;
        }
        Err(GameError::PlayerNotFound)
    }
}

} // verus!
