use minesweeper::{Game, GameState, Slot, NUM_BOMBS, NUM_COLS, NUM_ROWS};

fn bomb_cells(game: &Game) -> Vec<(usize, usize)> {
    let mut cells = Vec::new();
    for r in 0..NUM_ROWS {
        for c in 0..NUM_COLS {
            if game.slot((r, c)).has_bomb {
                cells.push((r, c));
            }
        }
    }
    cells
}

#[test]
fn new_game_is_blank() {
    let game = Game::new();
    assert_eq!(game.state(), GameState::Neutral);
    assert_eq!(game.turns(), 0);
    assert!(game.bombs().is_empty());
    for r in 0..NUM_ROWS {
        for c in 0..NUM_COLS {
            assert_eq!(
                game.slot((r, c)),
                Slot { character: '-', has_bomb: false, has_flag: false, is_revealed: false }
            );
        }
    }
}

#[test]
fn make_bombs_places_fifteen_distinct_bombs() {
    for _ in 0..200 {
        let mut game = Game::new();
        game.make_bombs();
        let bombs = game.bombs();
        assert_eq!(bombs.len(), 15);
        assert_eq!(NUM_BOMBS, 15);
        for (i, a) in bombs.iter().enumerate() {
            assert!(a.0 < NUM_ROWS && a.1 < NUM_COLS);
            for b in &bombs[i + 1..] {
                assert_ne!(a, b);
            }
        }
        let mut listed = bombs.clone();
        listed.sort();
        assert_eq!(bomb_cells(&game), listed);
    }
}

#[test]
fn make_bombs_changes_nothing_but_bombs() {
    let mut game = Game::new();
    game.make_bombs();
    assert_eq!(game.state(), GameState::Neutral);
    assert_eq!(game.turns(), 0);
    for r in 0..NUM_ROWS {
        for c in 0..NUM_COLS {
            let slot = game.slot((r, c));
            assert_eq!(slot.character, '-');
            assert!(!slot.has_flag);
            assert!(!slot.is_revealed);
        }
    }
}

#[test]
fn make_bombs_draws_different_boards() {
    let mut first = Game::new();
    first.make_bombs();
    let mut differs = false;
    for _ in 0..20 {
        let mut other = Game::new();
        other.make_bombs();
        if other.bombs() != first.bombs() {
            differs = true;
        }
    }
    assert!(differs);
}

#[test]
fn make_bombs_reaches_every_cell() {
    let mut hit = [[false; 10]; 10];
    for _ in 0..400 {
        let mut game = Game::new();
        game.make_bombs();
        for (r, c) in game.bombs() {
            hit[r][c] = true;
        }
    }
    for r in 0..NUM_ROWS {
        for c in 0..NUM_COLS {
            assert!(hit[r][c], "no bomb was ever drawn on ({r}, {c})");
        }
    }
}

#[test]
fn make_bombs_keeps_bombs_already_placed() {
    let mut game = Game::new();
    assert!(game.place_bomb((3, 4)));
    assert!(game.place_bomb((0, 0)));
    game.make_bombs();
    let bombs = game.bombs();
    assert_eq!(bombs.len(), 15);
    assert_eq!(bombs[0], (3, 4));
    assert_eq!(bombs[1], (0, 0));
    assert_eq!(bomb_cells(&game).len(), 15);
}

#[test]
fn place_bomb_puts_one_bomb() {
    let mut game = Game::new();
    assert!(game.place_bomb((2, 7)));
    assert_eq!(game.bombs(), vec![(2, 7)]);
    assert_eq!(bomb_cells(&game), vec![(2, 7)]);
    assert_eq!(
        game.slot((2, 7)),
        Slot { character: '-', has_bomb: true, has_flag: false, is_revealed: false }
    );
}

#[test]
fn place_bomb_refuses_a_cell_with_a_bomb() {
    let mut game = Game::new();
    assert!(game.place_bomb((2, 7)));
    assert!(!game.place_bomb((2, 7)));
    assert_eq!(game.bombs(), vec![(2, 7)]);
}

#[test]
fn place_bomb_refuses_cells_off_the_board() {
    let mut game = Game::new();
    assert!(!game.place_bomb((10, 0)));
    assert!(!game.place_bomb((0, 10)));
    assert!(!game.place_bomb((0, 15)));
    assert!(!game.place_bomb((usize::MAX, usize::MAX)));
    assert!(game.bombs().is_empty());
    assert!(bomb_cells(&game).is_empty());
}

#[test]
fn place_bomb_refuses_a_sixteenth_bomb() {
    let mut game = Game::new();
    for c in 0..10 {
        assert!(game.place_bomb((0, c)));
    }
    for c in 0..5 {
        assert!(game.place_bomb((1, c)));
    }
    assert!(!game.place_bomb((5, 5)));
    assert_eq!(game.bombs().len(), 15);
    assert!(!game.slot((5, 5)).has_bomb);
}

#[test]
fn nth_free_slot_counts_in_row_major_order() {
    let mut game = Game::new();
    assert_eq!(game.nth_free_slot(0), (0, 0));
    assert_eq!(game.nth_free_slot(9), (0, 9));
    assert_eq!(game.nth_free_slot(10), (1, 0));
    assert_eq!(game.nth_free_slot(99), (9, 9));
    assert!(game.place_bomb((0, 0)));
    assert!(game.place_bomb((0, 2)));
    assert!(game.place_bomb((9, 9)));
    assert_eq!(game.nth_free_slot(0), (0, 1));
    assert_eq!(game.nth_free_slot(1), (0, 3));
    assert_eq!(game.nth_free_slot(8), (1, 0));
    assert_eq!(game.nth_free_slot(96), (9, 8));
}
