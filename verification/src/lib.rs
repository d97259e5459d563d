//! Rules engine for Flip7, a turn-based push-your-luck card game.
//!
//! Players draw numbered cards into a hand. A hand whose total passes 21 is
//! bust; a hand in which some cards sum to exactly 7 holds a Flip7. A round
//! runs from the deal until every player has stayed, by choice or by going
//! bust, and is then scored.
//!
//! Every operation is specified over a mathematical view of the state it
//! works on. [`game::GameView`] carries the transitions of the game as
//! functions from state to state; the operations of [`GameState`] are proved
//! to carry them out, and [`laws`] proves what follows for every game.
//!
//! - [`card`], [`deck`], [`rng`]: cards, the standard deck, the seeded shuffle
//! - [`hand`], [`player`], [`round`]: hands, players, the state of a round
//! - [`game`], [`error`]: the game and the ways its operations fail
//! - [`laws`]: what holds of every deck and of every game
//! - [`session`], [`script`], [`text`]: tables run by seat number, and the
//!   line-by-line scripts that drive them
//! - [`host`]: many games side by side, and the requests players send them

pub mod card;
pub mod deck;
pub mod error;
pub mod game;
pub mod hand;
pub mod host;
pub mod laws;
pub mod player;
pub mod rng;
pub mod round;
pub mod script;
pub mod session;
pub mod text;

pub use card::Card;
pub use deck::{shuffle_with, Deck};
pub use error::GameError;
pub use game::GameState;
pub use hand::Hand;
pub use player::Player;
pub use rng::DeckRng;
pub use round::RoundState;
