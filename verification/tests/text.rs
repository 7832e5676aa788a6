use minesweeper::text::push_decimal;
use minesweeper::{Game, GameState, InputOutcome};

fn decimal(n: u64) -> String {
    let mut text = String::new();
    push_decimal(&mut text, n);
    text
}

#[test]
fn push_decimal_writes_numerals() {
    assert_eq!(decimal(0), "0");
    assert_eq!(decimal(7), "7");
    assert_eq!(decimal(9), "9");
    assert_eq!(decimal(10), "10");
    assert_eq!(decimal(15), "15");
    assert_eq!(decimal(100), "100");
    assert_eq!(decimal(12345), "12345");
    assert_eq!(decimal(9007199254740993), "9007199254740993");
    assert_eq!(decimal(u64::MAX), "18446744073709551615");
}

#[test]
fn push_decimal_appends() {
    let mut text = String::from("turns: ");
    push_decimal(&mut text, 42);
    push_decimal(&mut text, 0);
    assert_eq!(text, "turns: 420");
}

#[test]
fn render_board_of_a_new_game() {
    let game = Game::new();
    let mut expected = String::new();
    for r in 0..10 {
        expected.push_str(&format!("\n{r}| - | - | - | - | - | - | - | - | - | - | "));
    }
    expected.push_str("\n   0   1   2   3   4   5   6   7   8   9   ");
    assert_eq!(game.render_board(), expected);
    assert_eq!(game.render_board().chars().count(), 484);
}

#[test]
fn render_board_shows_every_symbol() {
    let mut game = Game::new();
    for c in 0..10 {
        assert!(game.place_bomb((9, c)));
    }
    for c in 0..5 {
        assert!(game.place_bomb((8, c)));
    }
    assert_eq!(game.play_line("r00"), InputOutcome::TurnEnded(GameState::Neutral));
    assert_eq!(game.play_line("g90"), InputOutcome::Guessed);
    assert_eq!(game.play_line("f99"), InputOutcome::TurnEnded(GameState::Neutral));
    assert_eq!(game.play_line("f12"), InputOutcome::TurnEnded(GameState::Neutral));
    let expected = "\n\
        0| 0 | 0 | 0 | 0 | 0 | 0 | 0 | 0 | 0 | 0 | \n\
        1| 0 | 0 | f | 0 | 0 | 0 | 0 | 0 | 0 | 0 | \n\
        2| 0 | 0 | 0 | 0 | 0 | 0 | 0 | 0 | 0 | 0 | \n\
        3| 0 | 0 | 0 | 0 | 0 | 0 | 0 | 0 | 0 | 0 | \n\
        4| 0 | 0 | 0 | 0 | 0 | 0 | 0 | 0 | 0 | 0 | \n\
        5| 0 | 0 | 0 | 0 | 0 | 0 | 0 | 0 | 0 | 0 | \n\
        6| 0 | 0 | 0 | 0 | 0 | 0 | 0 | 0 | 0 | 0 | \n\
        7| 2 | 3 | 3 | 3 | 2 | 1 | 0 | 0 | 0 | 0 | \n\
        8| - | - | - | - | - | 4 | 3 | 3 | 3 | 2 | \n\
        9| g | - | - | - | - | - | - | - | - | f | \n   \
        0   1   2   3   4   5   6   7   8   9   ";
    assert_eq!(game.render_board(), expected);
}

#[test]
fn end_message_of_a_won_game() {
    let mut game = Game::new();
    game.make_bombs();
    for (r, c) in game.bombs() {
        game.play_line(&format!("f{r}{c}"));
    }
    assert_eq!(game.state(), GameState::Win);
    assert_eq!(game.end_message(), "You Won in: 15!");
}

#[test]
fn end_message_of_a_lost_game() {
    let mut game = Game::new();
    assert!(game.place_bomb((0, 0)));
    assert_eq!(game.play_line("f11"), InputOutcome::TurnEnded(GameState::Neutral));
    assert_eq!(game.play_line("r00"), InputOutcome::TurnEnded(GameState::Loss));
    assert_eq!(game.end_message(), "Game Over :(");
}

#[test]
fn end_message_of_a_game_that_was_left() {
    let mut game = Game::new();
    game.make_bombs();
    assert_eq!(game.play_line("q"), InputOutcome::TurnEnded(GameState::Quit));
    assert_eq!(game.end_message(), "Quitting Game....");
}

#[test]
fn end_message_of_a_game_that_goes_on() {
    let game = Game::new();
    assert_eq!(game.end_message(), "Error: GameState On Neutral");
}

const BLANK_BOARD: &str = "\n\
    0| - | - | - | - | - | - | - | - | - | - | \n\
    1| - | - | - | - | - | - | - | - | - | - | \n\
    2| - | - | - | - | - | - | - | - | - | - | \n\
    3| - | - | - | - | - | - | - | - | - | - | \n\
    4| - | - | - | - | - | - | - | - | - | - | \n\
    5| - | - | - | - | - | - | - | - | - | - | \n\
    6| - | - | - | - | - | - | - | - | - | - | \n\
    7| - | - | - | - | - | - | - | - | - | - | \n\
    8| - | - | - | - | - | - | - | - | - | - | \n\
    9| - | - | - | - | - | - | - | - | - | - | \n   \
    0   1   2   3   4   5   6   7   8   9   ";

#[test]
fn screen_shows_board_and_prompt_while_the_game_goes_on() {
    let mut game = Game::new();
    game.make_bombs();
    assert_eq!(game.render_board(), BLANK_BOARD);
    assert_eq!(game.screen(), format!("{BLANK_BOARD}\nEnter your command: "));
}

#[test]
fn screen_shows_the_closing_message_once_the_game_is_over() {
    let mut game = Game::new();
    game.make_bombs();
    game.play_line("q");
    assert_eq!(game.screen(), "Quitting Game....\n");
}

#[test]
fn reply_to_an_invalid_line_complains_and_asks_again() {
    let mut game = Game::new();
    game.make_bombs();
    let outcome = game.play_line("r5");
    assert_eq!(outcome, InputOutcome::Invalid);
    assert_eq!(game.reply(outcome), "Invalid Command Try Again\n\nEnter your command: ");
}

#[test]
fn reply_to_a_guess_asks_again_without_the_board() {
    let mut game = Game::new();
    game.make_bombs();
    let outcome = game.play_line("g55");
    assert_eq!(outcome, InputOutcome::Guessed);
    assert_eq!(game.reply(outcome), "\nEnter your command: ");
}

#[test]
fn reply_to_the_end_of_a_turn_clears_the_screen_and_shows_the_board() {
    let mut game = Game::new();
    game.make_bombs();
    let outcome = game.play_line("f00");
    assert_eq!(outcome, InputOutcome::TurnEnded(GameState::Neutral));
    let board = BLANK_BOARD.replacen('-', "f", 1);
    assert_eq!(game.reply(outcome), format!("\u{1b}[2J{board}\nEnter your command: "));
}

#[test]
fn reply_to_the_end_of_the_game_clears_the_screen_and_closes() {
    let mut game = Game::new();
    assert!(game.place_bomb((4, 4)));
    game.make_bombs();
    assert_eq!(game.play_line("f00"), InputOutcome::TurnEnded(GameState::Neutral));
    let outcome = game.play_line("r44");
    assert_eq!(outcome, InputOutcome::TurnEnded(GameState::Loss));
    assert_eq!(game.reply(outcome), "\u{1b}[2JGame Over :(\n");
}
