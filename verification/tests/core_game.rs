use tetriz_game::board::Board;
use tetriz_game::game::{GameState, TetrisGame};
use tetriz_game::pieces::{get_random_piece, Piece, PieceType};
use tetriz_game::scoring::Scoring;

fn piece_at(t: PieceType, rotations: u32, x: i32, y: i32) -> Piece {
    let mut p = Piece::new(t);
    let mut i = 0;
    while i < rotations {
        p.rotate();
        i += 1;
    }
    p.set_x(x);
    p.set_y(y);
    p
}

fn game_with(board: Board, current: Option<Piece>, state: GameState) -> TetrisGame {
    TetrisGame {
        board,
        current_piece: current,
        next_piece: Piece::new(PieceType::T),
        scoring: Scoring::new(),
        state,
        elapsed_ms: 0,
    }
}

#[test]
fn new_game_starts_playing_with_a_spawned_piece() {
    let g = TetrisGame::new();
    assert_eq!(g.get_state(), GameState::Playing);
    assert!(!g.is_game_over());
    let sc = g.get_scoring();
    assert_eq!(sc.score(), 0);
    assert_eq!(sc.level(), 1);
    assert_eq!(sc.lines_cleared(), 0);
    assert_eq!(g.get_board().occupied_count(), 0);
    let p = g.get_current_piece().unwrap();
    assert_eq!((p.x(), p.y()), (4, 0));
    let n = g.get_next_piece();
    assert_eq!((n.x(), n.y()), (4, 0));
}

#[test]
fn hard_drop_of_o_piece_on_empty_board() {
    // An O piece at the spawn cell falls to the floor: the drop counts 19
    // cells, awards 38 points, and leaves two cells in each of the two
    // bottom rows.
    let mut g = game_with(Board::new(), Some(Piece::new(PieceType::O)), GameState::Playing);
    assert!(g.get_board().is_valid_position(&g.get_current_piece().unwrap()));
    let dropped = g.hard_drop();
    assert_eq!(dropped, 19);
    assert_eq!(g.get_scoring().score(), 38);
    let b = g.get_board();
    assert_eq!(b.occupied_count(), 4);
    let grid = b.get_grid();
    for y in [18usize, 19] {
        assert_eq!(grid[y][4], Some(PieceType::O));
        assert_eq!(grid[y][5], Some(PieceType::O));
        assert_eq!(
            grid[y].iter().filter(|c| c.is_some()).count(),
            2
        );
    }
    // The piece locked and the next one was promoted.
    assert!(g.get_current_piece().is_some());
    assert_eq!(g.get_state(), GameState::Playing);
}

#[test]
fn level_up_at_ten_lines_and_scaled_points() {
    // At ten cumulative lines the level becomes 2; the next single-line
    // clear then awards 200 points.
    let mut sc = Scoring::new();
    sc.add_lines(4);
    sc.add_lines(4);
    assert_eq!(sc.level(), 1);
    assert_eq!(sc.score(), 1600);
    sc.add_lines(2);
    assert_eq!(sc.lines_cleared(), 10);
    assert_eq!(sc.level(), 2);
    let before = sc.score();
    sc.add_lines(1);
    assert_eq!(sc.score() - before, 200);
}

#[test]
fn wall_kick_rotation_shifts_left() {
    // A vertical I against the right wall cannot rotate in place; the first
    // legal kick offset is -1, so the rotation succeeds with x one less.
    let mut g = game_with(
        Board::new(),
        Some(piece_at(PieceType::I, 1, 7, 0)),
        GameState::Playing,
    );
    let x_before = g.get_current_piece().unwrap().x();
    assert!(g.rotate());
    let p = g.get_current_piece().unwrap();
    assert_eq!(p.x(), x_before - 1);
}

#[test]
fn rotation_reverts_when_every_kick_fails() {
    // Boxed in on all sides, a T piece cannot rotate at all: the piece is
    // left exactly as it was.
    let mut b = Board::new();
    for x in [0, 2, 6, 8] {
        b.place_piece(&piece_at(PieceType::O, 0, x, 18));
        b.place_piece(&piece_at(PieceType::O, 0, x, 16));
    }
    // A tall T in the remaining notch at columns 4-5.
    let t = piece_at(PieceType::T, 1, 4, 17);
    assert!(b.is_valid_position(&t));
    let mut g = game_with(b, Some(t), GameState::Playing);
    assert!(!g.rotate());
    let p = g.get_current_piece().unwrap();
    assert_eq!((p.x(), p.y()), (4, 17));
    assert_eq!(p.get_blocks(), piece_at(PieceType::T, 1, 4, 17).get_blocks());
}

#[test]
fn moves_commit_or_revert() {
    let mut g = game_with(
        Board::new(),
        Some(piece_at(PieceType::I, 1, 0, 5)),
        GameState::Playing,
    );
    // Against the left wall.
    assert!(!g.move_left());
    assert_eq!(g.get_current_piece().unwrap().x(), 0);
    assert!(g.move_right());
    assert_eq!(g.get_current_piece().unwrap().x(), 1);
    assert!(g.move_left());
    assert_eq!(g.get_current_piece().unwrap().x(), 0);
}

#[test]
fn soft_drop_moves_and_scores() {
    let mut g = game_with(Board::new(), Some(Piece::new(PieceType::O)), GameState::Playing);
    assert!(g.soft_drop());
    assert_eq!(g.get_current_piece().unwrap().y(), 1);
    assert_eq!(g.get_scoring().score(), 1);
}

#[test]
fn soft_drop_on_floor_locks_the_piece() {
    let mut g = game_with(
        Board::new(),
        Some(piece_at(PieceType::O, 0, 4, 18)),
        GameState::Playing,
    );
    assert!(!g.soft_drop());
    // Locked: four cells on the board, no soft-drop point, a fresh piece.
    assert_eq!(g.get_board().occupied_count(), 4);
    assert_eq!(g.get_scoring().score(), 0);
    let p = g.get_current_piece().unwrap();
    assert_eq!((p.x(), p.y()), (4, 0));
}

#[test]
fn commands_rejected_when_not_playing() {
    let mut g = TetrisGame::new();
    g.pause();
    assert_eq!(g.get_state(), GameState::Paused);
    let y = g.get_current_piece().unwrap().y();
    assert!(!g.move_left());
    assert!(!g.move_right());
    assert!(!g.rotate());
    assert!(!g.soft_drop());
    assert_eq!(g.hard_drop(), 0);
    assert_eq!(g.get_current_piece().unwrap().y(), y);
    assert_eq!(g.get_scoring().score(), 0);
    g.pause();
    assert_eq!(g.get_state(), GameState::Playing);
}

#[test]
fn pause_does_not_leave_game_over() {
    let mut g = game_with(Board::new(), None, GameState::GameOver);
    g.pause();
    assert_eq!(g.get_state(), GameState::GameOver);
    assert!(g.is_game_over());
}

#[test]
fn failed_spawn_ends_the_game_with_no_piece() {
    // The spawn cell is occupied: spawning flips to GameOver and no piece
    // becomes active.
    let mut b = Board::new();
    b.place_piece(&Piece::new(PieceType::O));
    let mut g = game_with(b, None, GameState::Playing);
    g.spawn_piece();
    assert_eq!(g.get_state(), GameState::GameOver);
    assert!(g.get_current_piece().is_none());
    assert!(g.is_game_over());
}

#[test]
fn spawn_does_nothing_while_a_piece_is_active() {
    let mut g = TetrisGame::new();
    let p = g.get_current_piece().unwrap();
    let n = g.get_next_piece();
    g.spawn_piece();
    let p2 = g.get_current_piece().unwrap();
    assert_eq!((p.x(), p.y(), p.piece_type()), (p2.x(), p2.y(), p2.piece_type()));
    assert_eq!(g.get_next_piece().piece_type(), n.piece_type());
}

#[test]
fn game_over_auto_restarts_after_two_seconds() {
    // Accumulating past the restart delay returns the game to Playing with
    // an empty board and a zeroed score.
    let mut b = Board::new();
    b.place_piece(&Piece::new(PieceType::O));
    let mut sc = Scoring::new();
    sc.add_lines(1);
    let mut g = TetrisGame {
        board: b,
        current_piece: None,
        next_piece: Piece::new(PieceType::T),
        scoring: sc,
        state: GameState::GameOver,
        elapsed_ms: 0,
    };
    assert!(g.update(1500));
    assert_eq!(g.get_state(), GameState::GameOver);
    assert!(g.update(400));
    assert_eq!(g.get_state(), GameState::GameOver);
    assert!(g.update(200));
    assert_eq!(g.get_state(), GameState::Playing);
    assert_eq!(g.get_board().occupied_count(), 0);
    assert_eq!(g.get_scoring().score(), 0);
    assert_eq!(g.get_scoring().level(), 1);
    assert!(g.get_current_piece().is_some());
}

#[test]
fn update_drops_once_the_interval_elapses() {
    let mut g = game_with(Board::new(), Some(Piece::new(PieceType::O)), GameState::Playing);
    assert!(g.update(999));
    assert_eq!(g.get_current_piece().unwrap().y(), 0);
    assert_eq!(g.elapsed_ms, 999);
    assert!(g.update(1));
    assert_eq!(g.get_current_piece().unwrap().y(), 1);
    assert_eq!(g.get_scoring().score(), 1);
    assert_eq!(g.elapsed_ms, 0);
}

#[test]
fn update_is_inert_while_paused() {
    let mut g = TetrisGame::new();
    g.pause();
    let y = g.get_current_piece().unwrap().y();
    assert!(g.update(10_000));
    assert_eq!(g.get_current_piece().unwrap().y(), y);
    assert_eq!(g.get_state(), GameState::Paused);
}

#[test]
fn reset_returns_to_the_start() {
    let mut g = TetrisGame::new();
    g.hard_drop();
    assert!(g.get_board().occupied_count() > 0);
    g.reset();
    assert_eq!(g.get_state(), GameState::Playing);
    assert_eq!(g.get_board().occupied_count(), 0);
    assert_eq!(g.get_scoring().score(), 0);
    assert_eq!(g.get_scoring().lines_cleared(), 0);
    let p = g.get_current_piece().unwrap();
    assert_eq!((p.x(), p.y()), (4, 0));
}

#[test]
fn random_pieces_are_spawnable() {
    // The randomizer always hands back one of the seven types, each of which
    // fits at the spawn cell of an empty board.
    let b = Board::new();
    for _ in 0..64 {
        let t = get_random_piece();
        let p = Piece::new(t);
        assert!(b.is_valid_position(&p));
    }
}

#[test]
fn score_saturates_instead_of_wrapping() {
    let mut sc = Scoring {
        score: u32::MAX - 5,
        level: 1,
        lines_cleared: 0,
    };
    sc.add_soft_drop_points(10);
    assert_eq!(sc.score(), u32::MAX);
    sc.add_hard_drop_points(3);
    assert_eq!(sc.score(), u32::MAX);
}

#[test]
fn drop_speed_steps_down_to_a_floor() {
    let speeds = [1000u32, 900, 800, 700, 600, 500, 400, 300, 200, 100];
    for (i, &expected) in speeds.iter().enumerate() {
        let level = i as u32 + 1;
        let sc = Scoring {
            score: 0,
            level,
            lines_cleared: (level - 1) * 10,
        };
        assert_eq!(sc.get_drop_speed(), expected);
    }
    let sc = Scoring {
        score: 0,
        level: 25,
        lines_cleared: 240,
    };
    assert_eq!(sc.get_drop_speed(), 100);
}

#[test]
fn zero_and_many_lines_award_nothing() {
    let mut sc = Scoring::new();
    sc.add_lines(0);
    assert_eq!(sc.score(), 0);
    assert_eq!(sc.lines_cleared(), 0);
    sc.add_lines(5);
    assert_eq!(sc.score(), 0);
    assert_eq!(sc.lines_cleared(), 5);
}

#[test]
fn scoring_reset_zeroes_everything() {
    let mut sc = Scoring::new();
    sc.add_lines(4);
    sc.add_hard_drop_points(7);
    sc.reset();
    assert_eq!(sc.score(), 0);
    assert_eq!(sc.level(), 1);
    assert_eq!(sc.lines_cleared(), 0);
}
