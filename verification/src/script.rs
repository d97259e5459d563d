//! Scripts: one request to a session per line.
//!
//! A line is a list of words set apart by whitespace. A line without words,
//! or one whose first word begins with `#`, asks for nothing. Otherwise the
//! first word names the request and the following words are its arguments:
//!
//! ```text
//! new [players [seed]]
//! draw <player>
//! stay <player>
//! state
//! ```
//!
//! Words behind the arguments are not looked at.

use crate::game::DEFAULT_SEED;
use crate::text::same_text;
use vstd::prelude::*;
use vstd::string::StrSliceExecFns;

verus! {

/// The number of players of a session that `new` opens without being told.
pub const DEFAULT_PLAYERS: usize = 2;

/// What a line of a script asks for.
#[derive(Debug, Clone, Copy, PartialEq, Eq, Structural)]
pub enum Command {
    /// Open a session.
    New { players: usize, seed: u64 },
    /// Let the player in the seat draw.
    Draw { player: usize },
    /// Let the player in the seat stay.
    Stay { player: usize },
    /// Show the state of the game.
    State,
}

/// Why a line of a script cannot be carried out.
#[derive(Debug, Clone, Copy, PartialEq, Eq, Structural)]
pub enum ScriptError {
    /// The first argument of `new` is not a number of players.
    InvalidPlayerCount,
    /// The second argument of `new` is not a seed.
    InvalidSeed,
    /// `draw` or `stay` stands without a player.
    MissingPlayer,
    /// The argument of `draw` or `stay` is not a seat number.
    InvalidPlayerId,
    /// The first word is no request.
    UnknownCommand,
}

/// The words of `text`: what `str::split_whitespace` yields for it, in order.
pub uninterp spec fn whitespace_words(text: Seq<char>) -> Seq<Seq<char>>;

/// The number that `text` is read as: what `str::parse::<u64>` makes of it,
/// `None` where that fails.
pub uninterp spec fn parsed_u64(text: Seq<char>) -> Option<u64>;

/// Splits a line into its words.
///
/// Trusted. The body walks `str::split_whitespace` and copies each word. The
/// words depend on the text alone; the contract names them and claims
/// nothing else about them.
#[verifier::external_body]
fn split_words(line: &str) -> (words: Vec<String>)
    ensures
        words.deep_view() == whitespace_words(line@),
{
    let mut words = Vec::new();
    for word in line.split_whitespace() {
        words.push(word.to_owned());
    }
    words
}

/// Reads a number.
///
/// Trusted. The body calls `str::parse::<u64>` and drops the error's detail.
/// The outcome depends on the text alone; the contract names it and claims
/// nothing else about it.
#[verifier::external_body]
fn parse_u64(text: &str) -> (number: Option<u64>)
    ensures
        number == parsed_u64(text@),
{
    text.parse::<u64>().ok()
}

/// The seat number or player count that `text` is read as: the number it
/// is read as, where a `usize` holds it.
pub open spec fn parsed_size(text: Seq<char>) -> Option<usize> {
    match parsed_u64(text) {
        Some(number) => if number <= usize::MAX {
            Some(number as usize)
        } else {
            None
        },
        None => None,
    }
}

/// Whether a first word marks its line as a comment.
pub open spec fn is_comment(word: Seq<char>) -> bool {
    word.len() > 0 && word[0] == '#'
}

/// What a `new` line with the given words asks for.
pub open spec fn meaning_of_new(words: Seq<Seq<char>>) -> Result<Option<Command>, ScriptError> {
    let players = if words.len() > 1 {
        parsed_size(words[1])
    } else {
        Some(DEFAULT_PLAYERS)
    };
    let seed = if words.len() > 2 {
        parsed_u64(words[2])
    } else {
        Some(DEFAULT_SEED)
    };
    if players is None {
        Err(ScriptError::InvalidPlayerCount)
    } else if seed is None {
        Err(ScriptError::InvalidSeed)
    } else {
        Ok(Some(Command::New { players: players->0, seed: seed->0 }))
    }
}

/// The seat that a `draw` or `stay` line with the given words names.
pub open spec fn seat_argument(words: Seq<Seq<char>>) -> Result<usize, ScriptError> {
    if words.len() < 2 {
        Err(ScriptError::MissingPlayer)
    } else {
        match parsed_size(words[1]) {
            Some(player) => Ok(player),
            None => Err(ScriptError::InvalidPlayerId),
        }
    }
}

/// What a line with the given words asks for; `None` for a line that asks
/// for nothing.
pub open spec fn meaning(words: Seq<Seq<char>>) -> Result<Option<Command>, ScriptError> {
    if words.len() == 0 || is_comment(words[0]) {
        Ok(None)
    } else if words[0] == "new"@ {
        meaning_of_new(words)
    } else if words[0] == "draw"@ {
        match seat_argument(words) {
            Ok(player) => Ok(Some(Command::Draw { player })),
            Err(error) => Err(error),
        }
    } else if words[0] == "stay"@ {
        match seat_argument(words) {
            Ok(player) => Ok(Some(Command::Stay { player })),
            Err(error) => Err(error),
        }
    } else if words[0] == "state"@ {
        Ok(Some(Command::State))
    } else {
        Err(ScriptError::UnknownCommand)
    }
}

/// Reads a number that must fit a `usize`.
fn parse_size(text: &str) -> (number: Option<usize>)
    ensures
        number == parsed_size(text@),
{
    match parse_u64(text) {
        Some(number) => if number <= usize::MAX as u64 {
            Some(number as usize)
        } else {
            None
        },
        None => None,
    }
}

/// Reads the player of a `draw` or `stay` line.
fn read_seat(words: &Vec<String>) -> (seat: Result<usize, ScriptError>)
    ensures
        seat == seat_argument(words.deep_view()),
{
    if words.len() < 2 {
        return Err(ScriptError::MissingPlayer);
    }
    match parse_size(words[1].as_str()) {
        Some(player) => Ok(player),
        None => Err(ScriptError::InvalidPlayerId),
    }
}

/// Says what a line asks for, given the words of the line.
pub fn interpret_words(words: &Vec<String>) -> (result: Result<Option<Command>, ScriptError>)
    ensures
        result == meaning(words.deep_view()),
{
    if words.len() == 0 {
        return Ok(None);
    }
    let first = &words[0];
    assert(first@ == words.deep_view()[0]);
    if first.as_str().unicode_len() > 0 && first.as_str().get_char(0) == '#' {
        return Ok(None);
    }
    if same_text(first, "new") {
        let players = if words.len() > 1 {
            parse_size(words[1].as_str())
        } else {
            Some(DEFAULT_PLAYERS)
        };
        let seed = if words.len() > 2 {
            parse_u64(words[2].as_str())
        } else {
            Some(DEFAULT_SEED)
        };
        match (players, seed) {
            (None, _) => Err(ScriptError::InvalidPlayerCount),
            (Some(_), None) => Err(ScriptError::InvalidSeed),
            (Some(players), Some(seed)) => Ok(Some(Command::New { players, seed })),
        }
    } else if same_text(first, "draw") {
        match read_seat(words) {
            Ok(player) => Ok(Some(Command::Draw { player })),
            Err(error) => Err(error),
        }
    } else if same_text(first, "stay") {
        match read_seat(words) {
            Ok(player) => Ok(Some(Command::Stay { player })),
            Err(error) => Err(error),
        }
    } else if same_text(first, "state") {
        Ok(Some(Command::State))
    } else {
        Err(ScriptError::UnknownCommand)
    }
}

/// Says what a line of a script asks for.
pub fn parse_script_line(line: &str) -> (result: Result<Option<Command>, ScriptError>)
    ensures
        result == meaning(whitespace_words(line@)),
{
    let words = split_words(line);
    interpret_words(&words)
}

} // verus!
