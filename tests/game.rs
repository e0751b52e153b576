use connect_four::game::{Game, GameError, Player, HEIGHT, WIDTH};

fn board_from(columns: &[&str]) -> Game {
    let mut g = Game::new();
    let mut row = 0;
    loop {
        let mut placed = false;
        for (c, col) in columns.iter().enumerate() {
            if let Some(ch) = col.chars().nth(row) {
                let p = if ch == 'X' { Player::X } else { Player::O };
                assert_eq!(g.play(c, p), Ok(()));
                placed = true;
            }
        }
        if !placed {
            return g;
        }
        row += 1;
    }
}

#[test]
fn new_board_is_empty() {
    let g = Game::new();
    for c in 0..WIDTH {
        for r in 0..HEIGHT {
            assert_eq!(g.get(c, r), Ok(None));
        }
        assert_eq!(g.playable(c), Ok(true));
    }
    assert_eq!(g.winner(), None);
    assert_eq!(g.to_play(), Player::X);
    assert_eq!(g.valid_plays(), (0..WIDTH).collect::<Vec<usize>>());
}

#[test]
fn out_of_bounds_is_refused() {
    let mut g = Game::new();
    assert_eq!(g.get(WIDTH, 0), Err(GameError::OutOfBounds));
    assert_eq!(g.get(0, HEIGHT), Err(GameError::OutOfBounds));
    assert_eq!(g.playable(WIDTH), Err(GameError::OutOfBounds));
    assert_eq!(g.play(WIDTH, Player::X), Err(GameError::OutOfBounds));
    assert_eq!(g.to_play(), Player::X);
}

#[test]
fn full_column_is_refused() {
    let mut g = Game::new();
    for _ in 0..HEIGHT {
        assert_eq!(g.play(2, Player::O), Ok(()));
    }
    assert_eq!(g.playable(2), Ok(false));
    assert_eq!(g.play(2, Player::X), Err(GameError::ColumnFull));
    assert_eq!(g.get(2, HEIGHT - 1), Ok(Some(Player::O)));
    assert_eq!(g.valid_plays(), vec![0, 1, 3, 4, 5, 6, 7, 8, 9]);
}

#[test]
fn play_stacks_and_passes_turn() {
    let mut g = Game::new();
    assert_eq!(g.play(4, Player::X), Ok(()));
    assert_eq!(g.to_play(), Player::O);
    assert_eq!(g.play(4, Player::O), Ok(()));
    assert_eq!(g.to_play(), Player::X);
    assert_eq!(g.get(4, 0), Ok(Some(Player::X)));
    assert_eq!(g.get(4, 1), Ok(Some(Player::O)));
    assert_eq!(g.get(4, 2), Ok(None));
    assert_eq!(g.get(3, 0), Ok(None));
    assert_eq!(g.get(5, 0), Ok(None));
}

#[test]
fn cells_below_height_are_filled() {
    let g = board_from(&["XOX", "", "O", "XXOOX"]);
    let heights = [3, 0, 1, 5, 0, 0, 0, 0, 0, 0];
    for c in 0..WIDTH {
        for r in 0..HEIGHT {
            assert_eq!(g.get(c, r).unwrap().is_some(), r < heights[c]);
        }
    }
}

#[test]
fn replay_returns_tokens_in_order() {
    let moves = [
        (3, Player::X),
        (3, Player::O),
        (0, Player::X),
        (3, Player::X),
        (9, Player::O),
        (0, Player::O),
    ];
    let mut g = Game::new();
    for &(c, p) in moves.iter() {
        assert_eq!(g.play(c, p), Ok(()));
    }
    assert_eq!(g.get(3, 0), Ok(Some(Player::X)));
    assert_eq!(g.get(3, 1), Ok(Some(Player::O)));
    assert_eq!(g.get(3, 2), Ok(Some(Player::X)));
    assert_eq!(g.get(3, 3), Ok(None));
    assert_eq!(g.get(0, 0), Ok(Some(Player::X)));
    assert_eq!(g.get(0, 1), Ok(Some(Player::O)));
    assert_eq!(g.get(9, 0), Ok(Some(Player::O)));
    assert_eq!(g.get(9, 1), Ok(None));
}

#[test]
fn few_tokens_no_winner() {
    let mut g = Game::new();
    for c in 0..3 {
        assert_eq!(g.play(c, Player::X), Ok(()));
        assert_eq!(g.winner(), None);
    }
}

#[test]
fn horizontal_row_wins() {
    let mut g = Game::new();
    for c in 0..4 {
        assert_eq!(g.winner(), None);
        assert_eq!(g.play(c, Player::X), Ok(()));
    }
    assert_eq!(g.winner(), Some(Player::X));
}

#[test]
fn alternating_column_no_winner() {
    let mut g = Game::new();
    for p in [Player::X, Player::O, Player::X, Player::O] {
        assert_eq!(g.play(0, p), Ok(()));
        assert_eq!(g.winner(), None);
    }
}

#[test]
fn vertical_column_wins() {
    let g = board_from(&["", "", "", "", "", "", "", "", "", "OOOO"]);
    assert_eq!(g.winner(), Some(Player::O));
}

#[test]
fn full_board_without_line_is_draw() {
    let g = board_from(&[
        "XOXOX", "XOXOX", "OXOXO", "OXOXO", "XOXOX", "XOXOX", "OXOXO", "OXOXO", "XOXOX", "XOXOX",
    ]);
    for c in 0..WIDTH {
        assert_eq!(g.playable(c), Ok(false));
    }
    assert!(g.valid_plays().is_empty());
    assert_eq!(g.winner(), None);
}

#[test]
fn rising_diagonal_wins() {
    let g = board_from(&["X", "OX", "OOX", "OOOX"]);
    assert_eq!(g.winner(), Some(Player::X));
}

#[test]
fn falling_diagonal_wins() {
    let g = board_from(&["", "", "", "", "", "", "XXXO", "XXO", "XO", "O"]);
    assert_eq!(g.winner(), Some(Player::O));
}

#[test]
fn line_at_right_edge_needs_four_columns() {
    let g = board_from(&["", "", "", "", "", "", "", "X", "X", "X"]);
    assert_eq!(g.winner(), None);
    let g = board_from(&["", "", "", "", "", "", "X", "X", "X", "X"]);
    assert_eq!(g.winner(), Some(Player::X));
}

#[test]
fn line_at_top_edge_needs_four_rows() {
    let g = board_from(&["OXXX", "", "", "", "", "", "", "", "", ""]);
    assert_eq!(g.winner(), None);
    let g = board_from(&["OXXXX", "", "", "", "", "", "", "", "", ""]);
    assert_eq!(g.winner(), Some(Player::X));
}

#[test]
fn earliest_anchor_decides_between_two_lines() {
    let g = board_from(&["OOOO", "", "", "", "", "X", "X", "X", "X", ""]);
    assert_eq!(g.winner(), Some(Player::O));
}

#[test]
fn x_tried_before_o_at_same_anchor() {
    let g = board_from(&["XXXX", "OOOO", "", "", "", "", "", "", "", ""]);
    assert_eq!(g.winner(), Some(Player::X));
}

#[test]
fn default_is_new() {
    assert_eq!(Game::default(), Game::new());
}
