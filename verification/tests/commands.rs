use minesweeper::command::{normalize, parse_command, strip_whitespace};
use minesweeper::{Command, Game, GameState, InputOutcome, Slot, NUM_COLS, NUM_ROWS};

fn read(line: &str) -> Option<Command> {
    parse_command(&normalize(line))
}

fn board(game: &Game) -> Vec<Slot> {
    let mut cells = Vec::new();
    for r in 0..NUM_ROWS {
        for c in 0..NUM_COLS {
            cells.push(game.slot((r, c)));
        }
    }
    cells
}

/// Bombs on all of row 9 and on the first five cells of row 8.
fn fixed_game() -> Game {
    let mut game = Game::new();
    for c in 0..10 {
        assert!(game.place_bomb((9, c)));
    }
    for c in 0..5 {
        assert!(game.place_bomb((8, c)));
    }
    game
}

#[test]
fn parses_reveal() {
    assert_eq!(read("r05"), Some(Command::Reveal(0, 5)));
    assert_eq!(parse_command("r05"), Some(Command::Reveal(0, 5)));
}

#[test]
fn parses_flag_with_blanks_and_capitals() {
    assert_eq!(normalize("F 9 9"), "f99");
    assert_eq!(read("F 9 9"), Some(Command::Flag(9, 9)));
}

#[test]
fn parses_guess() {
    assert_eq!(read("g37"), Some(Command::Guess(3, 7)));
    assert_eq!(read("G37\n"), Some(Command::Guess(3, 7)));
}

#[test]
fn parses_quit_whatever_follows() {
    assert_eq!(read("q"), Some(Command::Quit));
    assert_eq!(read("Q\n"), Some(Command::Quit));
    assert_eq!(read("quit"), Some(Command::Quit));
    assert_eq!(read("q12345"), Some(Command::Quit));
    assert_eq!(read("  q x y z "), Some(Command::Quit));
}

#[test]
fn rejects_wrong_length() {
    assert_eq!(read("r5"), None);
    assert_eq!(read("r555"), None);
    assert_eq!(read("r"), None);
    assert_eq!(read("f"), None);
    assert_eq!(read("g1"), None);
    assert_eq!(read("f0123"), None);
}

#[test]
fn rejects_coordinates_that_are_no_digits() {
    assert_eq!(read("rxy"), None);
    assert_eq!(read("r1x"), None);
    assert_eq!(read("rx1"), None);
    assert_eq!(read("r+5"), None);
    assert_eq!(read("r-1"), None);
    assert_eq!(read("f/0"), None);
    assert_eq!(read("f:0"), None);
    assert_eq!(read("r\u{661}\u{662}"), None);
}

#[test]
fn rejects_empty_input() {
    assert_eq!(read(""), None);
    assert_eq!(read("\n"), None);
    assert_eq!(read("   \t \r\n"), None);
    assert_eq!(parse_command(""), None);
}

#[test]
fn rejects_unknown_letters() {
    assert_eq!(read("x12"), None);
    assert_eq!(read("a00"), None);
    assert_eq!(read("012"), None);
    assert_eq!(read("\u{e9}12"), None);
}

#[test]
fn every_pair_of_digits_names_its_cell() {
    for r in 0..10usize {
        for c in 0..10usize {
            assert_eq!(read(&format!("r{r}{c}")), Some(Command::Reveal(r, c)));
            assert_eq!(read(&format!("f{r}{c}")), Some(Command::Flag(r, c)));
            assert_eq!(read(&format!("g{r}{c}")), Some(Command::Guess(r, c)));
        }
    }
}

#[test]
fn parse_command_reads_normalized_text_only() {
    assert_eq!(parse_command("R05"), None);
    assert_eq!(parse_command("r 05"), None);
    assert_eq!(parse_command("Q"), None);
}

#[test]
fn strip_whitespace_removes_every_kind_of_blank() {
    assert_eq!(strip_whitespace(" r\t0 5\r\n"), "r05");
    assert_eq!(strip_whitespace("r\u{a0}0\u{2003}5\u{3000}"), "r05");
    assert_eq!(strip_whitespace("R 0 5"), "R05");
    assert_eq!(strip_whitespace(""), "");
}

#[test]
fn normalize_lowers_the_case() {
    assert_eq!(normalize("R05"), "r05");
    assert_eq!(normalize("QUIT"), "quit");
    assert_eq!(normalize(" \u{c9} "), "\u{e9}");
}

#[test]
fn invalid_line_changes_nothing() {
    let mut game = fixed_game();
    let before = board(&game);
    for line in ["", "\n", "r5", "r555", "rxy", "x12", "hello"] {
        assert_eq!(game.play_line(line), InputOutcome::Invalid);
        assert_eq!(board(&game), before);
        assert_eq!(game.turns(), 0);
        assert_eq!(game.state(), GameState::Neutral);
    }
}

#[test]
fn guess_marks_the_cell_and_keeps_the_turn() {
    let mut game = fixed_game();
    let mut expected = board(&game);
    assert_eq!(game.play_line("g 4 2\n"), InputOutcome::Guessed);
    expected[42].character = 'g';
    assert_eq!(board(&game), expected);
    assert_eq!(game.turns(), 0);
    assert_eq!(game.state(), GameState::Neutral);
    // a guess on a bomb changes the symbol only
    assert_eq!(game.play_line("g90"), InputOutcome::Guessed);
    expected[90].character = 'g';
    assert_eq!(board(&game), expected);
    assert_eq!(game.turns(), 0);
}

#[test]
fn guess_does_not_use_up_the_first_turn() {
    let mut game = fixed_game();
    assert_eq!(game.play_line("g00"), InputOutcome::Guessed);
    assert_eq!(game.play_line("g90"), InputOutcome::Guessed);
    // still the first turn: the bomb under the reveal is moved away
    match game.play_line("r90") {
        InputOutcome::TurnEnded(state) => assert_ne!(state, GameState::Loss),
        other => panic!("the reveal did not end the turn: {other:?}"),
    }
    assert_eq!(game.turns(), 1);
    assert!(!game.slot((9, 0)).has_bomb);
}

#[test]
fn flag_reveal_and_quit_end_the_turn() {
    let mut game = fixed_game();
    assert_eq!(game.play_line("f00"), InputOutcome::TurnEnded(GameState::Neutral));
    assert_eq!(game.turns(), 1);
    assert_eq!(game.play_line("r77"), InputOutcome::TurnEnded(GameState::Neutral));
    assert_eq!(game.turns(), 2);
    assert_eq!(game.play_line("q"), InputOutcome::TurnEnded(GameState::Quit));
    assert_eq!(game.turns(), 3);
    assert_eq!(game.state(), GameState::Quit);
}

#[test]
fn quit_leaves_the_board_alone() {
    let mut game = fixed_game();
    let before = board(&game);
    assert_eq!(game.play_line("quit"), InputOutcome::TurnEnded(GameState::Quit));
    assert_eq!(board(&game), before);
    assert_eq!(game.bombs().len(), 15);
    assert_eq!(game.state(), GameState::Quit);
}

#[test]
fn execute_runs_a_command() {
    let mut game = fixed_game();
    assert_eq!(game.execute(Command::Guess(1, 1)), InputOutcome::Guessed);
    assert_eq!(game.slot((1, 1)).character, 'g');
    assert_eq!(game.execute(Command::Flag(1, 1)), InputOutcome::TurnEnded(GameState::Neutral));
    assert_eq!(game.slot((1, 1)).character, 'f');
    assert_eq!(game.execute(Command::Reveal(8, 0)), InputOutcome::TurnEnded(GameState::Loss));
    assert_eq!(game.state(), GameState::Loss);
    assert_eq!(game.turns(), 2);
}
