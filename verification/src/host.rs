//! A table of running games, each known by an id, and the requests that
//! players send to it.
//!
//! The table answers one request at a time. Nothing here waits or locks: a
//! caller that serves several players at once gives every request the table
//! to itself for as long as the request takes.

use crate::error::GameError;
use crate::game::{player_views, GameState, GameView, DEFAULT_SEED};
use crate::player::{Player, PlayerView};
use crate::text::same_text;
use vstd::prelude::*;

verus! {

/// A move in a game.
#[derive(Debug)]
pub enum GameMove {
    /// The player draws a card.
    Draw { player_id: String },
    /// The player stays.
    Stay { player_id: String },
}

/// A request to the table.
#[derive(Debug)]
#[allow(inconsistent_fields)]
pub enum Message {
    /// Join the named game; without a name, open a game and join it.
    JoinGame { player_name: String, game_id: Option<String> },
    /// Start a round of the game.
    StartGame { game_id: String },
    /// Make a move in the game.
    MakeMove { game_id: String, game_move: GameMove },
    /// Show the state of the game.
    GetGameState { game_id: String },
    /// Leave the game.
    LeaveGame { game_id: String, player_id: String },
}

/// The table's answer to a request.
#[derive(Debug)]
pub enum Response {
    /// The player has joined the game under the given player id.
    GameJoined { game_id: String, player_id: String },
    /// A round of the game has started.
    GameStarted { game_id: String },
    /// The move has been made.
    MoveAccepted { game_id: String },
    /// The state of the game, as a copy.
    GameState { game_state: GameState },
    /// The request was refused.
    Error { message: String },
    /// Nobody with the given player id is in the game any more.
    PlayerLeft { game_id: String, player_id: String },
}

/// What an answer is to the rules.
pub enum ResponseView {
    GameJoined { game_id: Seq<char>, player_id: Seq<char> },
    GameStarted { game_id: Seq<char> },
    MoveAccepted { game_id: Seq<char> },
    GameState { game_state: GameView },
    Error { message: Seq<char> },
    PlayerLeft { game_id: Seq<char>, player_id: Seq<char> },
}

impl View for Response {
    type V = ResponseView;

    open spec fn view(&self) -> ResponseView {
        match self {
            Response::GameJoined { game_id, player_id } => ResponseView::GameJoined {
                game_id: game_id@,
                player_id: player_id@,
            },
            Response::GameStarted { game_id } => ResponseView::GameStarted { game_id: game_id@ },
            Response::MoveAccepted { game_id } => ResponseView::MoveAccepted { game_id: game_id@ },
            Response::GameState { game_state } => ResponseView::GameState {
                game_state: game_state@,
            },
            Response::Error { message } => ResponseView::Error { message: message@ },
            Response::PlayerLeft { game_id, player_id } => ResponseView::PlayerLeft {
                game_id: game_id@,
                player_id: player_id@,
            },
        }
    }
}

/// A game at the table.
#[derive(Debug)]
pub struct HostedGame {
    pub id: String,
    pub game: GameState,
}

/// What a game at the table is to the rules.
pub struct HostedView {
    pub id: Seq<char>,
    pub game: GameView,
}

impl View for HostedGame {
    type V = HostedView;

    open spec fn view(&self) -> HostedView {
        HostedView { id: self.id@, game: self.game@ }
    }
}

/// The games at the table. No two of them share an id as long as games come
/// to the table through its own operations.
#[derive(Debug)]
pub struct GameRegistry {
    pub games: Vec<HostedGame>,
}

impl View for GameRegistry {
    type V = Seq<HostedView>;

    open spec fn view(&self) -> Seq<HostedView> {
        Seq::new(self.games@.len(), |slot: int| self.games@[slot]@)
    }
}

/// The answer to a request that names a game the table does not have.
pub open spec fn game_not_found() -> ResponseView {
    ResponseView::Error { message: "Game not found"@ }
}

/// The answer to a request that the game refused.
pub open spec fn refused(error: GameError) -> ResponseView {
    ResponseView::Error { message: error.text() }
}

/// The first place at the table whose game has the given id.
pub open spec fn slot_of(games: Seq<HostedView>, id: Seq<char>) -> Option<int> {
    if exists|slot: int| 0 <= slot < games.len() && games[slot].id == id {
        Some(
            choose|slot: int|
                0 <= slot < games.len() && games[slot].id == id && forall|before: int|
                    0 <= before < slot ==> games[before].id != id,
        )
    } else {
        None
    }
}

/// The table with `game` in the place of the game at `slot`.
pub open spec fn with_game_at(games: Seq<HostedView>, slot: int, game: GameView) -> Seq<
    HostedView,
> {
    games.update(slot, HostedView { id: games[slot].id, game })
}

/// The table with `game` under `id`: in the place of the game that had the
/// id, or behind all the others if none had it.
pub open spec fn with_game(games: Seq<HostedView>, id: Seq<char>, game: GameView) -> Seq<
    HostedView,
> {
    match slot_of(games, id) {
        Some(slot) => with_game_at(games, slot, game),
        None => games.push(HostedView { id, game }),
    }
}

/// Whether no two games at the table share an id.
pub open spec fn ids_differ(games: Seq<HostedView>) -> bool {
    forall|first: int, second: int|
        0 <= first < second < games.len() ==> (#[trigger] games[first]).id != (
        #[trigger] games[second]).id
}

/// The players that remain, in their order, when everyone with the given
/// id has left.
pub open spec fn players_without(players: Seq<PlayerView>, id: Seq<char>) -> Seq<PlayerView>
    decreases players.len(),
{
    if players.len() == 0 {
        Seq::empty()
    } else if players.last().id != id {
        players_without(players.drop_last(), id).push(players.last())
    } else {
        players_without(players.drop_last(), id)
    }
}

/// The game after everyone with the given id has left. Deck and round state
/// stay as they are.
pub open spec fn after_leave(game: GameView, id: Seq<char>) -> GameView {
    GameView { players: players_without(game.players, id), ..game }
}

/// The table and the answer after a request to join. `fresh_id` is the id
/// that the player gets, and the game too if one is opened.
pub open spec fn joined(
    games: Seq<HostedView>,
    player_name: Seq<char>,
    game_id: Option<Seq<char>>,
    fresh_id: Seq<char>,
) -> (Seq<HostedView>, ResponseView) {
    match game_id {
        Some(id) => match slot_of(games, id) {
            Some(slot) => (
                with_game_at(games, slot, games[slot].game.with_player(fresh_id, player_name)),
                ResponseView::GameJoined { game_id: id, player_id: fresh_id },
            ),
            None => (games, game_not_found()),
        },
        None => (
            with_game(
                games,
                fresh_id,
                GameView::created(DEFAULT_SEED).with_player(fresh_id, player_name),
            ),
            ResponseView::GameJoined { game_id: fresh_id, player_id: fresh_id },
        ),
    }
}

/// The table and the answer after a request to start a round.
pub open spec fn started(games: Seq<HostedView>, game_id: Seq<char>) -> (
    Seq<HostedView>,
    ResponseView,
) {
    match slot_of(games, game_id) {
        Some(slot) => (
            with_game_at(games, slot, games[slot].game.after_start()),
            match games[slot].game.start_result() {
                Ok(()) => ResponseView::GameStarted { game_id },
                Err(error) => refused(error),
            },
        ),
        None => (games, game_not_found()),
    }
}

/// The table and the answer after a request to draw.
pub open spec fn drawn(games: Seq<HostedView>, game_id: Seq<char>, player_id: Seq<char>) -> (
    Seq<HostedView>,
    ResponseView,
) {
    match slot_of(games, game_id) {
        Some(slot) => (
            with_game_at(games, slot, games[slot].game.after_draw(player_id)),
            match games[slot].game.draw_result(player_id) {
                Ok(()) => ResponseView::MoveAccepted { game_id },
                Err(error) => refused(error),
            },
        ),
        None => (games, game_not_found()),
    }
}

/// The table and the answer after a request to stay.
pub open spec fn stayed(games: Seq<HostedView>, game_id: Seq<char>, player_id: Seq<char>) -> (
    Seq<HostedView>,
    ResponseView,
) {
    match slot_of(games, game_id) {
        Some(slot) => (
            with_game_at(games, slot, games[slot].game.after_stay(player_id)),
            match games[slot].game.stay_result(player_id) {
                Ok(()) => ResponseView::MoveAccepted { game_id },
                Err(error) => refused(error),
            },
        ),
        None => (games, game_not_found()),
    }
}

/// The table and the answer after a request to make a move.
pub open spec fn moved(games: Seq<HostedView>, game_id: Seq<char>, game_move: GameMove) -> (
    Seq<HostedView>,
    ResponseView,
) {
    match game_move {
        GameMove::Draw { player_id } => drawn(games, game_id, player_id@),
        GameMove::Stay { player_id } => stayed(games, game_id, player_id@),
    }
}

/// The answer to a request for the state of a game.
pub open spec fn shown(games: Seq<HostedView>, game_id: Seq<char>) -> ResponseView {
    match slot_of(games, game_id) {
        Some(slot) => ResponseView::GameState { game_state: games[slot].game },
        None => game_not_found(),
    }
}

/// The table and the answer after a request to leave.
pub open spec fn left(games: Seq<HostedView>, game_id: Seq<char>, player_id: Seq<char>) -> (
    Seq<HostedView>,
    ResponseView,
) {
    match slot_of(games, game_id) {
        Some(slot) => (
            with_game_at(games, slot, after_leave(games[slot].game, player_id)),
            ResponseView::PlayerLeft { game_id, player_id },
        ),
        None => (games, game_not_found()),
    }
}

/// What `text` is to the rules, where there is one.
pub open spec fn text_view(text: Option<String>) -> Option<Seq<char>> {
    match text {
        Some(text) => Some(text@),
        None => None,
    }
}

/// The table and the answer after a request.
pub open spec fn handled(games: Seq<HostedView>, message: Message, fresh_id: Seq<char>) -> (
    Seq<HostedView>,
    ResponseView,
) {
    match message {
        Message::JoinGame { player_name, game_id } => joined(
            games,
            player_name@,
            text_view(game_id),
            fresh_id,
        ),
        Message::StartGame { game_id } => started(games, game_id@),
        Message::MakeMove { game_id, game_move } => moved(games, game_id@, game_move),
        Message::GetGameState { game_id } => (games, shown(games, game_id@)),
        Message::LeaveGame { game_id, player_id } => left(games, game_id@, player_id@),
    }
}

/// No request makes two games share an id: a table whose ids differ has
/// ids that differ after every request, whatever id the caller set aside.
pub proof fn lemma_ids_stay_different(games: Seq<HostedView>, message: Message, fresh_id: Seq<char>)
    requires
        ids_differ(games),
    ensures
        ids_differ(handled(games, message, fresh_id).0),
{
    let after = handled(games, message, fresh_id).0;
    let named = match message {
        Message::JoinGame { game_id, .. } => match game_id {
            Some(id) => id@,
            None => fresh_id,
        },
        Message::StartGame { game_id } => game_id@,
        Message::MakeMove { game_id, .. } => game_id@,
        Message::GetGameState { game_id } => game_id@,
        Message::LeaveGame { game_id, .. } => game_id@,
    };
    match slot_of(games, named) {
        Some(slot) => {
            assert(after.len() == games.len());
            assert forall|other: int| 0 <= other < games.len() implies (#[trigger] after[other]).id
                == games[other].id by {}
        },
        None => {
            if message is JoinGame && message->JoinGame_game_id is None {
                assert(after.len() == games.len() + 1);
                assert forall|first: int, second: int|
                    0 <= first < second < after.len() implies (#[trigger] after[first]).id != (
                #[trigger] after[second]).id by {
                    if second == games.len() {
                        assert(games[first].id != named);
                    } else {
                        assert(games[first].id != games[second].id);
                    }
                }
            } else {
                assert(after == games);
            }
        },
    }
}

/// The answer to a request that names a game the table does not have.
fn not_found() -> (response: Response)
    ensures
        response@ == game_not_found(),
{
    Response::Error { message: "Game not found".to_owned() }
}

/// Takes everyone with the given id out of the game.
fn remove_player(game: &mut GameState, player_id: &str)
    ensures
        final(game)@ == after_leave(old(game)@, player_id@),
{
    let mut kept: Vec<Player> = Vec::new();
    let mut seat: usize = 0;
    assert(game@.players.take(0) =~= Seq::<PlayerView>::empty());
    while seat < game.players.len()
        invariant
            seat <= game.players.len(),
            *game == *old(game),
            player_views(kept@) == players_without(game@.players.take(seat as int), player_id@),
        decreases game.players.len() - seat,
    {
        let ghost upto = game@.players.take(seat + 1);
        assert(upto.drop_last() =~= game@.players.take(seat as int));
        assert(upto.last() == game.players@[seat as int]@);
        if !same_text(&game.players[seat].id, player_id) {
            let player = game.players[seat].clone();
            assert(player_views(kept@.push(player)) =~= player_views(kept@).push(player@));
            kept.push(player);
        }
        seat += 1;
    }
    assert(game@.players.take(seat as int) =~= game@.players);
    game.players = kept;
}

impl GameRegistry {
    /// The table without games.
    pub fn new() -> (registry: Self)
        ensures
            registry@ == Seq::<HostedView>::empty(),
    {
        let registry = GameRegistry { games: Vec::new() };
        assert(registry@ =~= Seq::<HostedView>::empty());
        registry
    }

    /// The first place at the table whose game has the given id.
    fn slot(&self, game_id: &str) -> (slot: Option<usize>)
        ensures
            match slot {
                Some(slot) => slot_of(self@, game_id@) == Some(slot as int) && slot
                    < self.games.len(),
                None => slot_of(self@, game_id@) is None,
            },
    {
        let mut slot: usize = 0;
        while slot < self.games.len()
            invariant
                slot <= self.games.len(),
                self@.len() == self.games.len(),
                forall|before: int| 0 <= before < slot ==> (#[trigger] self@[before]).id != game_id@,
            decreases self.games.len() - slot,
        {
            if same_text(&self.games[slot].id, game_id) {
                assert(self@[slot as int].id == game_id@);
                return Some(slot);
            }
            slot += 1;
        }
        None
    }

    /// Seats a player, known from now on as `fresh_id`, in the named game.
    /// Without a name a new game is opened under `fresh_id`, in the place of
    /// any game that had that id, and the player is its first.
    pub fn join_game(&mut self, player_name: String, game_id: Option<String>, fresh_id: String) -> (response:
        Response)
        ensures
            (final(self)@, response@) == joined(
                old(self)@,
                player_name@,
                text_view(game_id),
                fresh_id@,
            ),
    {
        match game_id {
            Some(id) => match self.slot(id.as_str()) {
                Some(slot) => {
                    let player_id = fresh_id.clone();
                    self.games[slot].game.add_player(fresh_id, player_name);
                    assert(self@ =~= joined(
                        old(self)@,
                        player_name@,
                        text_view(game_id),
                        fresh_id@,
                    ).0);
                    Response::GameJoined { game_id: id, player_id }
                },
                None => not_found(),
            },
            None => {
                let mut game = GameState::new();
                game.add_player(fresh_id.clone(), player_name);
                match self.slot(fresh_id.as_str()) {
                    Some(slot) => {
                        self.games[slot].game = game;
                    },
                    None => {
                        self.games.push(HostedGame { id: fresh_id.clone(), game });
                    },
                }
                assert(self@ =~= joined(
                    old(self)@,
                    player_name@,
                    text_view(game_id),
                    fresh_id@,
                ).0);
                Response::GameJoined { game_id: fresh_id.clone(), player_id: fresh_id }
            },
        }
    }

    /// Starts a round of the named game.
    pub fn start_game(&mut self, game_id: String) -> (response: Response)
        ensures
            (final(self)@, response@) == started(old(self)@, game_id@),
    {
        match self.slot(game_id.as_str()) {
            Some(slot) => {
                let result = self.games[slot].game.start_round();
                assert(self@ =~= started(old(self)@, game_id@).0);
                match result {
                    Ok(()) => Response::GameStarted { game_id },
                    Err(error) => Response::Error { message: error.message() },
                }
            },
            None => not_found(),
        }
    }

    /// Makes a move in the named game.
    pub fn make_move(&mut self, game_id: String, game_move: GameMove) -> (response: Response)
        ensures
            (final(self)@, response@) == moved(old(self)@, game_id@, game_move),
    {
        match self.slot(game_id.as_str()) {
            Some(slot) => {
                let result = match &game_move {
                    GameMove::Draw { player_id } => self.games[slot].game.player_draw(
                        player_id.as_str(),
                    ),
                    GameMove::Stay { player_id } => self.games[slot].game.player_stay(
                        player_id.as_str(),
                    ),
                };
                assert(self@ =~= moved(old(self)@, game_id@, game_move).0);
                match result {
                    Ok(()) => Response::MoveAccepted { game_id },
                    Err(error) => Response::Error { message: error.message() },
                }
            },
            None => not_found(),
        }
    }

    /// Shows the state of the named game.
    pub fn get_game_state(&self, game_id: String) -> (response: Response)
        ensures
            response@ == shown(self@, game_id@),
    {
        match self.slot(game_id.as_str()) {
            Some(slot) => Response::GameState { game_state: self.games[slot].game.clone() },
            None => not_found(),
        }
    }

    /// Takes everyone with the given player id out of the named game.
    pub fn leave_game(&mut self, game_id: String, player_id: String) -> (response: Response)
        ensures
            (final(self)@, response@) == left(old(self)@, game_id@, player_id@),
    {
        match self.slot(game_id.as_str()) {
            Some(slot) => {
                remove_player(&mut self.games[slot].game, player_id.as_str());
                assert(self@ =~= left(old(self)@, game_id@, player_id@).0);
                Response::PlayerLeft { game_id, player_id }
            },
            None => not_found(),
        }
    }

    /// Answers a request. `fresh_id` is an id that the caller has set aside
    /// for this request; it is used only where the request is to join.
    pub fn handle_message(&mut self, message: Message, fresh_id: String) -> (response: Response)
        ensures
            (final(self)@, response@) == handled(old(self)@, message, fresh_id@),
    {
        match message {
            Message::JoinGame { player_name, game_id } => self.join_game(
                player_name,
                game_id,
                fresh_id,
            ),
            Message::StartGame { game_id } => self.start_game(game_id),
            Message::MakeMove { game_id, game_move } => self.make_move(game_id, game_move),
            Message::GetGameState { game_id } => self.get_game_state(game_id),
            Message::LeaveGame { game_id, player_id } => self.leave_game(game_id, player_id),
        }
    }
}

} // verus!
