use tetriz_game::board::Board;
use tetriz_game::pieces::{get_piece_color, Piece, PieceType};
use tetriz_game::scoring::Scoring;

fn piece_at(t: PieceType, rotations: u32, x: i32, y: i32) -> Piece {
    let mut p = Piece::new(t);
    let mut i = 0;
    while i < rotations {
        p.rotate();
        i += 1;
    }
    p.set_x(x);
    p.set_y(y);
    p
}

#[test]
fn new_board_is_empty() {
    let b = Board::new();
    assert_eq!(b.occupied_count(), 0);
    assert!(!b.is_game_over());
    let grid = b.get_grid();
    assert_eq!(grid.len(), 20);
    for row in grid {
        assert_eq!(row.len(), 10);
        for cell in row {
            assert_eq!(*cell, None);
        }
    }
}

#[test]
fn rotation_periodicity_all_types() {
    // A piece covers the same cells at rotation r and r + period, for every
    // type and every rotation index.
    let cases = [
        (PieceType::I, 2u32),
        (PieceType::O, 1),
        (PieceType::T, 4),
        (PieceType::S, 2),
        (PieceType::Z, 2),
        (PieceType::J, 4),
        (PieceType::L, 4),
    ];
    for &(t, period) in cases.iter() {
        for r in 0..4u32 {
            let a = piece_at(t, r, 4, 0).get_blocks();
            let b = piece_at(t, r + period, 4, 0).get_blocks();
            assert_eq!(a, b);
        }
    }
}

#[test]
fn o_piece_rotation_invariant() {
    let a = piece_at(PieceType::O, 0, 4, 0).get_blocks();
    for r in 1..4u32 {
        assert_eq!(piece_at(PieceType::O, r, 4, 0).get_blocks(), a);
    }
}

#[test]
fn is_valid_is_pure() {
    // Validity queries mutate neither the board nor the piece.
    let mut b = Board::new();
    b.place_piece(&piece_at(PieceType::O, 0, 0, 18));
    let before = b.get_grid().clone();
    let p = piece_at(PieceType::T, 1, 3, 5);
    let first = b.is_valid_position(&p);
    let second = b.is_valid_position(&p);
    assert_eq!(first, second);
    assert_eq!(*b.get_grid(), before);
    assert_eq!(p.x(), 3);
    assert_eq!(p.y(), 5);
    assert_eq!(p.piece_type(), PieceType::T);
    assert_eq!(p.get_blocks(), piece_at(PieceType::T, 1, 3, 5).get_blocks());
}

#[test]
fn bounds_checks() {
    let b = Board::new();
    // Inside the walls.
    assert!(b.is_valid_position(&piece_at(PieceType::O, 0, 0, 0)));
    assert!(b.is_valid_position(&piece_at(PieceType::O, 0, 8, 18)));
    // Out through each wall and the floor.
    assert!(!b.is_valid_position(&piece_at(PieceType::O, 0, -1, 0)));
    assert!(!b.is_valid_position(&piece_at(PieceType::O, 0, 9, 0)));
    assert!(!b.is_valid_position(&piece_at(PieceType::O, 0, 4, 19)));
    // Partially above the visible grid is allowed.
    assert!(b.is_valid_position(&piece_at(PieceType::O, 0, 4, -1)));
}

#[test]
fn overlap_is_rejected() {
    let mut b = Board::new();
    let p = piece_at(PieceType::O, 0, 4, 18);
    assert!(b.is_valid_position(&p));
    b.place_piece(&p);
    assert!(!b.is_valid_position(&p));
    assert!(b.is_valid_position(&piece_at(PieceType::O, 0, 0, 18)));
}

#[test]
fn occupied_count_tracks_placement_and_clearing() {
    // The count grows by exactly the placed cells and shrinks by ten per
    // cleared row.
    let mut b = Board::new();
    b.place_piece(&piece_at(PieceType::I, 0, 0, 19));
    assert_eq!(b.occupied_count(), 4);
    b.place_piece(&piece_at(PieceType::I, 0, 4, 19));
    assert_eq!(b.occupied_count(), 8);
    b.place_piece(&piece_at(PieceType::I, 1, 8, 16));
    assert_eq!(b.occupied_count(), 12);
    b.place_piece(&piece_at(PieceType::I, 1, 9, 16));
    assert_eq!(b.occupied_count(), 16);
    let cleared = b.clear_lines();
    assert_eq!(cleared, 1);
    assert_eq!(b.occupied_count(), 16 - 10);
}

#[test]
fn fill_last_gap_clears_one_row() {
    // A row full except one cell; the piece that fills the gap clears it.
    let mut b = Board::new();
    b.place_piece(&piece_at(PieceType::I, 0, 0, 19));
    b.place_piece(&piece_at(PieceType::I, 0, 4, 19));
    b.place_piece(&piece_at(PieceType::I, 1, 8, 16));
    // Only (9, 19) is missing in the bottom row.
    let filler = piece_at(PieceType::I, 1, 9, 16);
    assert!(b.is_valid_position(&filler));
    b.place_piece(&filler);
    let cleared = b.clear_lines();
    assert_eq!(cleared, 1);
    let mut sc = Scoring::new();
    sc.add_lines(cleared);
    assert_eq!(sc.score(), 100);
    assert_eq!(sc.lines_cleared(), 1);
    assert_eq!(sc.level(), 1);
    // The surviving column cells moved down one row.
    let grid = b.get_grid();
    assert_eq!(grid[19][8], Some(PieceType::I));
    assert_eq!(grid[19][9], Some(PieceType::I));
    assert_eq!(grid[19][0], None);
}

#[test]
fn clear_leaves_no_full_rows_and_keeps_height() {
    // Five O pieces fill the bottom two rows completely.
    let mut b = Board::new();
    for x in [0, 2, 4, 6, 8] {
        b.place_piece(&piece_at(PieceType::O, 0, x, 18));
    }
    assert_eq!(b.occupied_count(), 20);
    let cleared = b.clear_lines();
    assert_eq!(cleared, 2);
    assert_eq!(b.occupied_count(), 0);
    let grid = b.get_grid();
    assert_eq!(grid.len(), 20);
    for row in grid {
        assert_eq!(row.len(), 10);
        assert!(row.iter().any(|c| c.is_none()));
    }
}

#[test]
fn clear_on_sparse_board_clears_nothing() {
    let mut b = Board::new();
    b.place_piece(&piece_at(PieceType::T, 0, 0, 18));
    assert_eq!(b.clear_lines(), 0);
    assert_eq!(b.occupied_count(), 4);
}

#[test]
fn game_over_looks_at_top_row() {
    let mut b = Board::new();
    assert!(!b.is_game_over());
    b.place_piece(&piece_at(PieceType::O, 0, 4, 18));
    assert!(!b.is_game_over());
    b.place_piece(&piece_at(PieceType::O, 0, 4, 0));
    assert!(b.is_game_over());
    b.reset();
    assert!(!b.is_game_over());
    assert_eq!(b.occupied_count(), 0);
}

#[test]
fn place_ignores_cells_above_the_grid() {
    let mut b = Board::new();
    // Vertical I half above the grid: only the visible cells are written.
    let p = piece_at(PieceType::I, 1, 0, -2);
    assert!(b.is_valid_position(&p));
    b.place_piece(&p);
    assert_eq!(b.occupied_count(), 2);
    let grid = b.get_grid();
    assert_eq!(grid[0][0], Some(PieceType::I));
    assert_eq!(grid[1][0], Some(PieceType::I));
    assert_eq!(grid[2][0], None);
}

#[test]
fn piece_kinematics() {
    let mut p = Piece::new(PieceType::T);
    assert_eq!((p.x(), p.y()), (4, 0));
    p.move_left();
    assert_eq!(p.x(), 3);
    p.move_right();
    p.move_right();
    assert_eq!(p.x(), 5);
    p.move_down();
    assert_eq!(p.y(), 1);
    p.set_x(7);
    p.set_y(9);
    assert_eq!((p.x(), p.y()), (7, 9));
    assert_eq!(p.piece_type(), PieceType::T);
}

#[test]
fn t_piece_blocks_by_rotation() {
    assert_eq!(
        piece_at(PieceType::T, 0, 4, 0).get_blocks(),
        vec![(5, 0), (4, 1), (5, 1), (6, 1)]
    );
    assert_eq!(
        piece_at(PieceType::T, 1, 4, 0).get_blocks(),
        vec![(4, 0), (4, 1), (5, 1), (4, 2)]
    );
    assert_eq!(
        piece_at(PieceType::T, 2, 4, 0).get_blocks(),
        vec![(4, 0), (5, 0), (6, 0), (5, 1)]
    );
    assert_eq!(
        piece_at(PieceType::T, 3, 4, 0).get_blocks(),
        vec![(5, 0), (4, 1), (5, 1), (5, 2)]
    );
}

#[test]
fn piece_colors() {
    assert_eq!(get_piece_color(PieceType::I), "#00f0f0");
    assert_eq!(get_piece_color(PieceType::O), "#f0f000");
    assert_eq!(get_piece_color(PieceType::T), "#a000f0");
    assert_eq!(get_piece_color(PieceType::S), "#00f000");
    assert_eq!(get_piece_color(PieceType::Z), "#f00000");
    assert_eq!(get_piece_color(PieceType::J), "#0000f0");
    assert_eq!(get_piece_color(PieceType::L), "#f0a000");
}
