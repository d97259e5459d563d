//! A table run by seat numbers: the players of a session are known by the
//! decimal number of their seat, "0" for the first.

use crate::error::GameError;
use crate::game::{GameState, GameView};
use crate::text::{decimal, decimal_string, lemma_decimal_is_injective};
use vstd::prelude::*;
use vstd::string::StringExecFns;

verus! {

/// The least number of players a session can be opened for.
pub const MIN_PLAYERS: usize = 1;

/// The greatest number of players a session can be opened for.
pub const MAX_PLAYERS: usize = 8;

/// Why a request to a session was refused.
#[derive(Debug, Clone, Copy, PartialEq, Eq, Structural)]
pub enum SessionError {
    /// A session was asked for with no players.
    TooFewPlayers,
    /// A session was asked for with more than eight players.
    TooManyPlayers,
    /// The seat number is not below the number of players.
    NoSuchPlayer,
    /// The game refused the move.
    Refused(GameError),
}

/// The name that a session gives the player in `seat`.
pub open spec fn seat_name(seat: nat) -> Seq<char> {
    "Player "@ + decimal(seat)
}

/// A new game for `seed` with `seats` players, each known by the number of
/// the seat.
pub open spec fn seated(seats: nat, seed: u64) -> GameView
    decreases seats,
{
    if seats == 0 {
        GameView::created(seed)
    } else {
        seated((seats - 1) as nat, seed).with_player(
            decimal((seats - 1) as nat),
            seat_name((seats - 1) as nat),
        )
    }
}

/// How a request to open a session for `players` players is answered.
pub open spec fn open_result(players: usize) -> Option<SessionError> {
    if players < MIN_PLAYERS {
        Some(SessionError::TooFewPlayers)
    } else if players > MAX_PLAYERS {
        Some(SessionError::TooManyPlayers)
    } else {
        None
    }
}

/// What a refusal of the game is to the session.
pub open spec fn relayed(result: Result<(), GameError>) -> Result<(), SessionError> {
    match result {
        Ok(()) => Ok(()),
        Err(error) => Err(SessionError::Refused(error)),
    }
}

/// Whether the players of `game` are known by the numbers of their seats.
pub open spec fn known_by_seat(game: GameView) -> bool {
    forall|seat: int|
        0 <= seat < game.players.len() ==> (#[trigger] game.players[seat]).id == decimal(seat as nat)
}

/// A session opens with its players known by their seats, and no start of a
/// round, draw, stay or scoring changes that.
pub proof fn lemma_session_is_known_by_seat(seats: nat, seed: u64, game: GameView, id: Seq<char>)
    ensures
        seated(seats, seed).players.len() == seats,
        known_by_seat(seated(seats, seed)),
        known_by_seat(game) ==> known_by_seat(game.after_start()),
        known_by_seat(game) ==> known_by_seat(game.after_draw(id)),
        known_by_seat(game) ==> known_by_seat(game.after_stay(id)),
        known_by_seat(game) ==> known_by_seat(game.after_scoring()),
    decreases seats,
{
    if seats > 0 {
        lemma_session_is_known_by_seat((seats - 1) as nat, seed, game, id);
    }
}

/// Where the players are known by their seats, a seat number names the
/// player in that seat and no other: a move asked for seat `player` is in
/// turn exactly when the turn is at that seat.
pub proof fn lemma_seat_names_its_player(game: GameView, player: nat)
    requires
        known_by_seat(game),
        player < game.players.len(),
    ensures
        game.is_turn_of(decimal(player)) == (game.turn() == player),
{
    if game.turn_is_seated() && game.players[game.turn()].id == decimal(player) {
        lemma_decimal_is_injective(game.turn() as nat, player);
    }
}

/// Opens a session: a new game for `seed` with `players` players, known by
/// their seat numbers and named after them, and its first round started.
/// A session has at least one player and at most eight.
pub fn open_session(players: usize, seed: u64) -> (result: Result<GameState, SessionError>)
    ensures
        match result {
            Ok(game) => open_result(players) is None && game@ == seated(
                players as nat,
                seed,
            ).after_start(),
            Err(error) => open_result(players) == Some(error),
        },
{
    if players < MIN_PLAYERS {
        return Err(SessionError::TooFewPlayers);
    }
    if players > MAX_PLAYERS {
        return Err(SessionError::TooManyPlayers);
    }
    let mut game = GameState::new_with_seed(seed);
    let mut seat: usize = 0;
    while seat < players
        invariant
            seat <= players,
            game@ == seated(seat as nat, seed),
        decreases players - seat,
    {
        let id = decimal_string(seat);
        let mut name = "Player ".to_owned();
        name.append(id.as_str());
        game.add_player(id, name);
        seat += 1;
    }
    let started = game.start_round();
    Ok(game)
}

/// Lets the player in seat `player` draw. The seat must exist; what the game
/// answers is handed on.
pub fn seat_draw(game: &mut GameState, player: usize) -> (result: Result<(), SessionError>)
    ensures
        player >= old(game)@.players.len() ==> result == Err::<(), SessionError>(
            SessionError::NoSuchPlayer,
        ) && final(game)@ == old(game)@,
        player < old(game)@.players.len() ==> result == relayed(
            old(game)@.draw_result(decimal(player as nat)),
        ) && final(game)@ == old(game)@.after_draw(decimal(player as nat)),
{
    if player >= game.players.len() {
        return Err(SessionError::NoSuchPlayer);
    }
    let id = decimal_string(player);
    match game.player_draw(id.as_str()) {
        Ok(()) => Ok(()),
        Err(error) => Err(SessionError::Refused(error)),
    }
}

/// Lets the player in seat `player` stay. The seat must exist; what the game
/// answers is handed on.
pub fn seat_stay(game: &mut GameState, player: usize) -> (result: Result<(), SessionError>)
    ensures
        player >= old(game)@.players.len() ==> result == Err::<(), SessionError>(
            SessionError::NoSuchPlayer,
        ) && final(game)@ == old(game)@,
        player < old(game)@.players.len() ==> result == relayed(
            old(game)@.stay_result(decimal(player as nat)),
        ) && final(game)@ == old(game)@.after_stay(decimal(player as nat)),
{
    if player >= game.players.len() {
        return Err(SessionError::NoSuchPlayer);
    }
    let id = decimal_string(player);
    match game.player_stay(id.as_str()) {
        Ok(()) => Ok(()),
        Err(error) => Err(SessionError::Refused(error)),
    }
}

} // verus!
