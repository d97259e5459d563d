use game_core::script::{interpret_words, parse_script_line, Command, ScriptError};
use game_core::session::{open_session, seat_draw, seat_stay, SessionError};
use game_core::text::{decimal_string, same_text};
use game_core::{GameError, GameState};

fn words(list: &[&str]) -> Vec<String> {
    list.iter().map(|word| word.to_string()).collect()
}

#[test]
fn decimal_string_writes_numbers() {
    assert_eq!(decimal_string(0), "0");
    assert_eq!(decimal_string(7), "7");
    assert_eq!(decimal_string(9), "9");
    assert_eq!(decimal_string(10), "10");
    assert_eq!(decimal_string(42), "42");
    assert_eq!(decimal_string(100), "100");
    assert_eq!(decimal_string(1234567890), "1234567890");
    assert_eq!(decimal_string(usize::MAX), usize::MAX.to_string());
}

#[test]
fn decimal_string_agrees_with_display() {
    for number in 0..2000usize {
        assert_eq!(decimal_string(number), number.to_string());
    }
}

#[test]
fn same_text_compares_content() {
    assert!(same_text(&"ann".to_string(), "ann"));
    assert!(!same_text(&"ann".to_string(), "bob"));
    assert!(!same_text(&"ann".to_string(), "an"));
    assert!(!same_text(&"ann".to_string(), "anna"));
    assert!(!same_text(&"ann".to_string(), "Ann"));
    assert!(same_text(&String::new(), ""));
}

#[test]
fn open_session_needs_one_to_eight_players() {
    assert_eq!(open_session(0, 42).err(), Some(SessionError::TooFewPlayers));
    assert_eq!(open_session(9, 42).err(), Some(SessionError::TooManyPlayers));
    assert_eq!(open_session(usize::MAX, 42).err(), Some(SessionError::TooManyPlayers));
    for players in 1..=8 {
        let game = open_session(players, 42).unwrap();
        assert_eq!(game.players.len(), players);
    }
}

#[test]
fn open_session_seats_and_deals() {
    let game = open_session(3, 5).unwrap();

    let mut expected = GameState::new_with_seed(5);
    expected.add_player("0".to_string(), "Player 0".to_string());
    expected.add_player("1".to_string(), "Player 1".to_string());
    expected.add_player("2".to_string(), "Player 2".to_string());
    expected.start_round().unwrap();

    assert_eq!(game.players.len(), 3);
    for seat in 0..3 {
        assert_eq!(game.players[seat].id, expected.players[seat].id);
        assert_eq!(game.players[seat].name, expected.players[seat].name);
        assert_eq!(game.players[seat].hand.cards, expected.players[seat].hand.cards);
        assert_eq!(game.players[seat].hand.cards.len(), 2);
        assert_eq!(game.players[seat].score, 0);
        assert!(!game.players[seat].has_stayed);
    }
    assert_eq!(game.players[2].id, "2");
    assert_eq!(game.players[2].name, "Player 2");
    assert_eq!(game.deck.cards, expected.deck.cards);
    assert_eq!(game.deck.len(), 73);
    assert_eq!(game.round_state.round_number, 1);
    assert_eq!(game.round_state.current_player_index, 0);
    assert!(!game.round_state.is_finished);
}

#[test]
fn seat_draw_checks_the_seat() {
    let mut game = open_session(2, 42).unwrap();
    assert_eq!(seat_draw(&mut game, 2), Err(SessionError::NoSuchPlayer));
    assert_eq!(seat_draw(&mut game, usize::MAX), Err(SessionError::NoSuchPlayer));
    assert_eq!(game.deck.len(), 75);
    assert_eq!(game.round_state.current_player_index, 0);
}

#[test]
fn seat_draw_hands_on_the_answer() {
    let mut game = open_session(2, 42).unwrap();
    assert_eq!(seat_draw(&mut game, 1), Err(SessionError::Refused(GameError::NotYourTurn)));
    assert_eq!(game.deck.len(), 75);
    game.players[0].hand.cards.clear();
    assert_eq!(seat_draw(&mut game, 0), Ok(()));
    assert_eq!(game.players[0].hand.cards.len(), 1);
    assert_eq!(game.deck.len(), 74);
    assert_eq!(game.round_state.current_player_index, 1);

    game.deck.cards.clear();
    assert_eq!(seat_draw(&mut game, 1), Err(SessionError::Refused(GameError::DeckExhausted)));
    game.players[1].has_stayed = true;
    assert_eq!(seat_draw(&mut game, 1), Err(SessionError::Refused(GameError::AlreadyStayed)));
    game.round_state.is_finished = true;
    assert_eq!(
        seat_draw(&mut game, 1),
        Err(SessionError::Refused(GameError::RoundAlreadyFinished))
    );
}

#[test]
fn seat_stay_checks_the_seat_and_hands_on_the_answer() {
    let mut game = open_session(2, 42).unwrap();
    assert_eq!(seat_stay(&mut game, 2), Err(SessionError::NoSuchPlayer));
    assert_eq!(seat_stay(&mut game, 1), Err(SessionError::Refused(GameError::NotYourTurn)));
    assert!(!game.players[1].has_stayed);
    assert_eq!(seat_stay(&mut game, 0), Ok(()));
    assert!(game.players[0].has_stayed);
    assert!(!game.round_state.is_finished);
    assert_eq!(seat_stay(&mut game, 1), Ok(()));
    assert!(game.round_state.is_finished);
    assert_eq!(
        seat_stay(&mut game, 0),
        Err(SessionError::Refused(GameError::RoundAlreadyFinished))
    );
}

#[test]
fn seats_with_two_digits() {
    let mut game = GameState::new();
    for seat in 0..12usize {
        game.add_player(seat.to_string(), format!("Player {}", seat));
    }
    game.start_round().unwrap();
    for seat in 0..12 {
        assert_eq!(seat_stay(&mut game, seat), Ok(()));
    }
    assert!(game.round_state.is_finished);
}

#[test]
fn lines_that_ask_for_nothing() {
    assert_eq!(parse_script_line(""), Ok(None));
    assert_eq!(parse_script_line("   \t "), Ok(None));
    assert_eq!(parse_script_line("# a comment"), Ok(None));
    assert_eq!(parse_script_line("   #draw 1"), Ok(None));
    assert_eq!(parse_script_line("#"), Ok(None));
}

#[test]
fn new_lines() {
    assert_eq!(parse_script_line("new"), Ok(Some(Command::New { players: 2, seed: 42 })));
    assert_eq!(parse_script_line("new 3"), Ok(Some(Command::New { players: 3, seed: 42 })));
    assert_eq!(parse_script_line("new 3 7"), Ok(Some(Command::New { players: 3, seed: 7 })));
    assert_eq!(
        parse_script_line("  new  12   18446744073709551615  rest"),
        Ok(Some(Command::New { players: 12, seed: u64::MAX }))
    );
    assert_eq!(parse_script_line("new 0"), Ok(Some(Command::New { players: 0, seed: 42 })));
}

#[test]
fn new_lines_with_bad_arguments() {
    assert_eq!(parse_script_line("new two"), Err(ScriptError::InvalidPlayerCount));
    assert_eq!(parse_script_line("new -1"), Err(ScriptError::InvalidPlayerCount));
    assert_eq!(parse_script_line("new 2 seed"), Err(ScriptError::InvalidSeed));
    assert_eq!(
        parse_script_line("new 2 18446744073709551616"),
        Err(ScriptError::InvalidSeed)
    );
    assert_eq!(parse_script_line("new x y"), Err(ScriptError::InvalidPlayerCount));
    assert_eq!(
        parse_script_line("new 18446744073709551616"),
        Err(ScriptError::InvalidPlayerCount)
    );
}

#[test]
fn draw_and_stay_lines() {
    assert_eq!(parse_script_line("draw 0"), Ok(Some(Command::Draw { player: 0 })));
    assert_eq!(parse_script_line("draw\t17"), Ok(Some(Command::Draw { player: 17 })));
    assert_eq!(parse_script_line("draw +1"), Ok(Some(Command::Draw { player: 1 })));
    assert_eq!(parse_script_line("draw 007 and more"), Ok(Some(Command::Draw { player: 7 })));
    assert_eq!(parse_script_line("stay 1"), Ok(Some(Command::Stay { player: 1 })));
    assert_eq!(parse_script_line(" stay 1 "), Ok(Some(Command::Stay { player: 1 })));
}

#[test]
fn draw_and_stay_lines_with_bad_arguments() {
    assert_eq!(parse_script_line("draw"), Err(ScriptError::MissingPlayer));
    assert_eq!(parse_script_line("stay"), Err(ScriptError::MissingPlayer));
    assert_eq!(parse_script_line("draw one"), Err(ScriptError::InvalidPlayerId));
    assert_eq!(parse_script_line("stay -1"), Err(ScriptError::InvalidPlayerId));
    assert_eq!(parse_script_line("stay 1.5"), Err(ScriptError::InvalidPlayerId));
    assert_eq!(
        parse_script_line("draw 18446744073709551616"),
        Err(ScriptError::InvalidPlayerId)
    );
}

#[test]
fn state_lines() {
    assert_eq!(parse_script_line("state"), Ok(Some(Command::State)));
    assert_eq!(parse_script_line("state now"), Ok(Some(Command::State)));
}

#[test]
fn unknown_requests() {
    assert_eq!(parse_script_line("shuffle"), Err(ScriptError::UnknownCommand));
    assert_eq!(parse_script_line("NEW"), Err(ScriptError::UnknownCommand));
    assert_eq!(parse_script_line("draw1"), Err(ScriptError::UnknownCommand));
    assert_eq!(parse_script_line("new#"), Err(ScriptError::UnknownCommand));
    assert_eq!(parse_script_line("0 draw"), Err(ScriptError::UnknownCommand));
}

#[test]
fn interpret_given_words() {
    assert_eq!(interpret_words(&words(&[])), Ok(None));
    assert_eq!(interpret_words(&words(&["#", "draw", "1"])), Ok(None));
    assert_eq!(interpret_words(&words(&["draw", "2"])), Ok(Some(Command::Draw { player: 2 })));
    assert_eq!(interpret_words(&words(&["stay", "3"])), Ok(Some(Command::Stay { player: 3 })));
    assert_eq!(
        interpret_words(&words(&["new", "4", "9"])),
        Ok(Some(Command::New { players: 4, seed: 9 }))
    );
    assert_eq!(interpret_words(&words(&["state"])), Ok(Some(Command::State)));
    assert_eq!(interpret_words(&words(&["draw"])), Err(ScriptError::MissingPlayer));
    assert_eq!(interpret_words(&words(&["draw", ""])), Err(ScriptError::InvalidPlayerId));
    assert_eq!(interpret_words(&words(&[""])), Err(ScriptError::UnknownCommand));
    assert_eq!(interpret_words(&words(&["draw 1"])), Err(ScriptError::UnknownCommand));
}
