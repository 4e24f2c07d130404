use weiqi::board::BOARD_SIZE;
use weiqi::coords::cell_to_world;
use weiqi::game::Game;
use weiqi::piece::{CurrentPlayer, Piece, PieceColor};

#[test]
fn new_game_is_empty_with_black_to_move() {
    let game = Game::new();
    assert_eq!(game.current_player(), CurrentPlayer(PieceColor::Black));
    for col in 0..BOARD_SIZE as i64 {
        for row in 0..BOARD_SIZE as i64 {
            assert_eq!(game.board().stone(col, row), None);
            assert!(game.can_place(col, row));
        }
    }
}

#[test]
fn click_on_the_first_cell_places_a_black_stone() {
    let mut game = Game::new();
    let piece = game.handle_click(Some((-285, -285)));
    assert_eq!(piece, Some(Piece { color: PieceColor::Black, x: -285, y: -285 }));
    assert_eq!(game.board().stone(0, 0), Some(PieceColor::Black));
    assert_eq!(game.current_player(), CurrentPlayer(PieceColor::White));
}

#[test]
fn second_click_on_the_same_spot_changes_nothing() {
    let mut game = Game::new();
    assert!(game.handle_click(Some((-285, -285))).is_some());
    let before = game.clone();
    assert_eq!(game.handle_click(Some((-285, -285))), None);
    assert_eq!(game.board().stone(0, 0), Some(PieceColor::Black));
    assert_eq!(game.current_player(), CurrentPlayer(PieceColor::White));
    assert_eq!(game, before);
}

#[test]
fn click_off_the_board_changes_nothing() {
    let mut game = Game::new();
    let before = game.clone();
    // the position of the cell (19, 5), one column past the last
    assert_eq!(cell_to_world(19, 5), (285, -135));
    assert_eq!(game.handle_click(Some((285, -135))), None);
    assert_eq!(game, before);
    assert_eq!(game.current_player(), CurrentPlayer(PieceColor::Black));
    assert_eq!(game.place(19, 5), None);
    assert_eq!(game, before);
}

#[test]
fn click_off_the_board_after_a_stone_changes_nothing() {
    let mut game = Game::new();
    assert!(game.handle_click(Some((-285, -285))).is_some());
    let before = game.clone();
    assert_eq!(game.handle_click(Some((285, -135))), None);
    assert_eq!(game, before);
    assert_eq!(game.board().stone(0, 0), Some(PieceColor::Black));
    assert_eq!(game.current_player(), CurrentPlayer(PieceColor::White));
}

#[test]
fn click_without_a_pointer_changes_nothing() {
    let mut game = Game::new();
    let before = game.clone();
    assert_eq!(game.handle_click(None), None);
    assert_eq!(game, before);
    assert!(game.place(4, 4).is_some());
    let before = game.clone();
    assert_eq!(game.handle_click(None), None);
    assert_eq!(game, before);
}

#[test]
fn click_near_a_cell_places_the_marker_on_the_cell() {
    let mut game = Game::new();
    // 14 units right of and 14 units below the cell (3, 17)
    let piece = game.handle_click(Some((-195 + 14, 225 - 14)));
    assert_eq!(piece, Some(Piece { color: PieceColor::Black, x: -195, y: 225 }));
    assert_eq!(game.board().stone(3, 17), Some(PieceColor::Black));
    // half-way between the columns 3 and 4: the click goes to column 4
    let piece = game.handle_click(Some((-195 + 15, 225)));
    assert_eq!(piece, Some(Piece { color: PieceColor::White, x: -165, y: 225 }));
    assert_eq!(game.board().stone(4, 17), Some(PieceColor::White));
}

#[test]
fn click_left_of_or_below_the_board_is_dropped() {
    let mut game = Game::new();
    let before = game.clone();
    assert_eq!(game.handle_click(Some((-300, -285))), None);
    assert_eq!(game.handle_click(Some((-285, -300))), None);
    assert_eq!(game.handle_click(Some((-1000, 0))), None);
    assert_eq!(game.handle_click(Some((0, 270))), None);
    assert_eq!(game.handle_click(Some((i64::MIN, i64::MAX))), None);
    assert_eq!(game.handle_click(Some((i64::MAX, i64::MIN))), None);
    assert_eq!(game, before);
    // just inside: nearer to line 0 than to the line before it
    assert_eq!(
        game.handle_click(Some((-299, -299))),
        Some(Piece { color: PieceColor::Black, x: -285, y: -285 })
    );
}

#[test]
fn place_rejects_every_cell_off_the_board() {
    let mut game = Game::new();
    let before = game.clone();
    for &(col, row) in [
        (-1, 0),
        (0, -1),
        (-1, -1),
        (19, 0),
        (0, 19),
        (19, 19),
        (19, 5),
        (5, 19),
        (i64::MIN, 3),
        (3, i64::MAX),
        (i64::MAX, i64::MAX),
        (i64::MIN, i64::MIN),
        (1 << 32, 0),
        (0, 1 << 32),
    ]
    .iter()
    {
        assert!(!game.can_place(col, row));
        assert_eq!(game.place(col, row), None);
        assert_eq!(game, before);
    }
}

#[test]
fn place_rejects_an_occupied_cell_for_either_colour() {
    let mut game = Game::new();
    assert!(game.place(7, 8).is_some());
    assert!(game.place(8, 7).is_some());
    // Black to move, on White's stone and on its own
    let before = game.clone();
    assert_eq!(game.current_player(), CurrentPlayer(PieceColor::Black));
    assert!(!game.can_place(8, 7));
    assert_eq!(game.place(8, 7), None);
    assert_eq!(game.place(7, 8), None);
    assert_eq!(game, before);
    assert!(game.place(0, 0).is_some());
    // White to move, on Black's stone and on its own
    let before = game.clone();
    assert_eq!(game.current_player(), CurrentPlayer(PieceColor::White));
    assert_eq!(game.place(7, 8), None);
    assert_eq!(game.place(8, 7), None);
    assert_eq!(game, before);
    assert_eq!(game.board().stone(7, 8), Some(PieceColor::Black));
    assert_eq!(game.board().stone(8, 7), Some(PieceColor::White));
}

#[test]
fn place_changes_one_cell_only() {
    let mut game = Game::new();
    assert_eq!(game.place(2, 5), Some(Piece { color: PieceColor::Black, x: -225, y: -135 }));
    for col in 0..BOARD_SIZE as i64 {
        for row in 0..BOARD_SIZE as i64 {
            let expected = if (col, row) == (2, 5) { Some(PieceColor::Black) } else { None };
            assert_eq!(game.board().stone(col, row), expected);
        }
    }
    // columns and rows are not mixed up
    assert_eq!(game.board().grid[2][5], Some(PieceColor::Black));
    assert_eq!(game.board().grid[5][2], None);
}

#[test]
fn turn_follows_the_number_of_accepted_placements() {
    let mut game = Game::new();
    let mut accepted = 0;
    let attempts = [
        (0, 0),
        (0, 0),
        (19, 5),
        (1, 0),
        (-1, 3),
        (1, 0),
        (2, 0),
        (0, 0),
        (18, 18),
        (18, 19),
        (18, 18),
        (9, 9),
    ];
    for &(col, row) in attempts.iter() {
        let mover = game.current_player().0;
        if let Some(piece) = game.place(col, row) {
            accepted += 1;
            assert_eq!(piece.color, mover);
            assert_eq!(game.board().stone(col, row), Some(mover));
        }
        let expected = if accepted % 2 == 0 { PieceColor::Black } else { PieceColor::White };
        assert_eq!(game.current_player(), CurrentPlayer(expected));
    }
    assert_eq!(accepted, 5);
    assert_eq!(game.current_player(), CurrentPlayer(PieceColor::White));
}

#[test]
fn clicks_on_every_cell_fill_the_board_in_alternating_colours() {
    let mut game = Game::new();
    let mut placed = 0;
    for row in 0..BOARD_SIZE as i64 {
        for col in 0..BOARD_SIZE as i64 {
            let (x, y) = cell_to_world(col, row);
            let color = if placed % 2 == 0 { PieceColor::Black } else { PieceColor::White };
            assert_eq!(game.current_player(), CurrentPlayer(color));
            assert_eq!(game.handle_click(Some((x, y))), Some(Piece { color, x, y }));
            placed += 1;
        }
    }
    assert_eq!(placed, 361);
    let mut black = 0;
    let mut white = 0;
    for row in 0..BOARD_SIZE as i64 {
        for col in 0..BOARD_SIZE as i64 {
            let nth = row * BOARD_SIZE as i64 + col;
            let color = if nth % 2 == 0 { PieceColor::Black } else { PieceColor::White };
            assert_eq!(game.board().stone(col, row), Some(color));
            assert!(!game.can_place(col, row));
            match color {
                PieceColor::Black => black += 1,
                PieceColor::White => white += 1,
            }
        }
    }
    assert_eq!((black, white), (181, 180));
    // 361 stones are on the board, an odd number: the last was Black's and
    // the next would be White's
    assert_eq!(game.board().stone(18, 18), Some(PieceColor::Black));
    assert_eq!(game.current_player(), CurrentPlayer(PieceColor::White));
    // and there is no cell left for it
    let full = game.clone();
    for row in 0..BOARD_SIZE as i64 {
        for col in 0..BOARD_SIZE as i64 {
            assert_eq!(game.place(col, row), None);
        }
    }
    assert_eq!(game, full);
}
