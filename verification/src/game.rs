//! The game orchestrator: one board, one scoring record, the active and the
//! next piece, and the Playing/Paused/GameOver state machine with the
//! time-driven automatic descent.
//!
//! Time is advanced only by the elapsed-time values handed to `update`, so
//! the whole core is deterministic and replayable up to the random choice of
//! the next piece type.

use crate::board::{
    clear_spec, empty_grid, full_row_count, grid_wf, lemma_spawn_valid_on_empty,
    lemma_valid_bounds, place_spec, valid_piece_spec, Board, BOARD_HEIGHT,
};
use crate::pieces::{get_random_piece, Piece, PieceType};
use crate::scoring::{drop_speed_spec, sat_add_u32, Scoring};
use vstd::prelude::*;

verus! {

/// Milliseconds a finished game waits before it restarts by itself.
pub const RESTART_DELAY_MS: u64 = 2000;

#[derive(Clone, Copy, PartialEq, Eq, Structural, Debug)]
pub enum GameState {
    Playing,
    Paused,
    GameOver,
}

/// Addition on a 64-bit time accumulator that sticks at the maximum.
pub open spec fn sat_add_u64(a: int, b: int) -> int {
    if a + b > u64::MAX {
        u64::MAX as int
    } else {
        a + b
    }
}

/// A piece at the spawn anchor, unrotated: how every piece enters the board.
pub open spec fn at_spawn(p: Piece) -> bool {
    p.x == 4 && p.y == 0 && p.rotation == 0
}

/// The same piece with its anchor column replaced.
pub open spec fn with_x(p: Piece, x: int) -> Piece {
    Piece { piece_type: p.piece_type, x: x as i32, y: p.y, rotation: p.rotation }
}

/// The same piece moved down by `d` rows.
pub open spec fn moved_down(p: Piece, d: int) -> Piece {
    Piece { piece_type: p.piece_type, x: p.x, y: (p.y + d) as i32, rotation: p.rotation }
}

/// The same piece with its rotation index advanced once.
pub open spec fn rotated(p: Piece) -> Piece {
    Piece { piece_type: p.piece_type, x: p.x, y: p.y, rotation: ((p.rotation + 1) % 4) as usize }
}

/// Where a rotation attempt ends up: the rotated piece in place if that is
/// legal, else at the first legal wall-kick offset in the fixed priority
/// order -1, +1, -2, +2; nothing if every position is blocked.
pub open spec fn kick_result(g: Seq<Seq<Option<PieceType>>>, p: Piece) -> Option<Piece> {
    let q = rotated(p);
    if valid_piece_spec(g, q) {
        Some(q)
    } else if valid_piece_spec(g, with_x(q, q.x - 1)) {
        Some(with_x(q, q.x - 1))
    } else if valid_piece_spec(g, with_x(q, q.x + 1)) {
        Some(with_x(q, q.x + 1))
    } else if valid_piece_spec(g, with_x(q, q.x - 2)) {
        Some(with_x(q, q.x - 2))
    } else if valid_piece_spec(g, with_x(q, q.x + 2)) {
        Some(with_x(q, q.x + 2))
    } else {
        None
    }
}

/// The board after committing a piece and clearing the full rows.
pub open spec fn locked_board(g: Seq<Seq<Option<PieceType>>>, p: Piece) -> Seq<
    Seq<Option<PieceType>>,
> {
    clear_spec(place_spec(g, p))
}

/// How many rows locking a piece clears.
pub open spec fn locked_lines(g: Seq<Seq<Option<PieceType>>>, p: Piece) -> nat {
    full_row_count(place_spec(g, p))
}

/// The scoring record after locking: line points are awarded only when at
/// least one row cleared.
pub open spec fn scoring_after_lock(sc: Scoring, g: Seq<Seq<Option<PieceType>>>, p: Piece) -> Scoring {
    if locked_lines(g, p) > 0 {
        sc.after_lines(locked_lines(g, p) as int)
    } else {
        sc
    }
}

/// How far straight down a piece can travel before its next step would be
/// illegal.
pub open spec fn drop_dist(g: Seq<Seq<Option<PieceType>>>, p: Piece) -> nat
    decreases BOARD_HEIGHT + 1 - p.y,
{
    if p.y > BOARD_HEIGHT as int || !valid_piece_spec(g, moved_down(p, 1)) {
        0
    } else {
        1 + drop_dist(g, moved_down(p, 1))
    }
}

/// The drop distance is exactly the length of the run of legal single-step
/// descents.
proof fn lemma_drop_dist_char(g: Seq<Seq<Option<PieceType>>>, p: Piece, d: nat)
    requires
        0 <= p.y,
        p.y + d <= BOARD_HEIGHT,
        forall|k: int| 1 <= k <= d ==> valid_piece_spec(g, #[trigger] moved_down(p, k)),
        !valid_piece_spec(g, moved_down(p, d as int + 1)),
    ensures
        drop_dist(g, p) == d,
    decreases d,
{
    if d == 0 {
    } else {
        assert(valid_piece_spec(g, moved_down(p, 1)));
        let p1 = moved_down(p, 1);
        assert forall|k: int| 1 <= k <= d - 1 implies valid_piece_spec(
            g,
            #[trigger] moved_down(p1, k),
        ) by {
            assert(moved_down(p1, k) == moved_down(p, k + 1));
            assert(valid_piece_spec(g, moved_down(p, k + 1)));
        }
        assert(moved_down(p1, (d - 1) + 1) == moved_down(p, d as int + 1));
        lemma_drop_dist_char(g, p1, (d - 1) as nat);
    }
}

/// The game right after a (re)start: empty board, zeroed scoring, a fresh
/// piece spawned, Playing, and the clock accumulator at zero.
pub open spec fn reset_post(post: TetrisGame) -> bool {
    &&& post.board@ == empty_grid()
    &&& post.scoring.score == 0
    &&& post.scoring.level == 1
    &&& post.scoring.lines_cleared == 0
    &&& post.state == GameState::Playing
    &&& post.current_piece is Some
    &&& at_spawn(post.current_piece.unwrap())
    &&& at_spawn(post.next_piece)
    &&& post.elapsed_ms == 0
}

/// What locking the piece `p` does to the game: the piece is committed, full
/// rows clear, line points are awarded, and the next piece is promoted; if
/// the promoted piece has no room, the game is over and no piece is active.
pub open spec fn lock_outcome(pre: TetrisGame, post: TetrisGame, p: Piece) -> bool {
    let b2 = locked_board(pre.board@, p);
    &&& post.board@ == b2
    &&& post.scoring == scoring_after_lock(pre.scoring, pre.board@, p)
    &&& at_spawn(post.next_piece)
    &&& if valid_piece_spec(b2, pre.next_piece) {
        &&& post.current_piece == Some(pre.next_piece)
        &&& post.state == pre.state
        &&& post.elapsed_ms == pre.elapsed_ms
    } else {
        &&& post.current_piece is None
        &&& post.state == GameState::GameOver
        &&& post.elapsed_ms == 0
    }
}

/// What a single-step descent does: when the piece can move down it does and
/// one soft-drop point is awarded; when it cannot, it locks where it is.
/// The step is rejected outside the Playing state or without an active piece.
pub open spec fn soft_drop_post(pre: TetrisGame, post: TetrisGame, r: bool) -> bool {
    if pre.state != GameState::Playing || pre.current_piece is None {
        &&& r == false
        &&& post == pre
    } else {
        let p = pre.current_piece.unwrap();
        if valid_piece_spec(pre.board@, moved_down(p, 1)) {
            &&& r == true
            &&& post == TetrisGame {
                current_piece: Some(moved_down(p, 1)),
                scoring: Scoring {
                    score: sat_add_u32(pre.scoring.score as int, 1) as u32,
                    ..pre.scoring
                },
                ..pre
            }
        } else {
            &&& r == false
            &&& lock_outcome(pre, post, p)
        }
    }
}

/// The root of ownership: board, scoring, active and next piece, state tag,
/// and the accumulator of elapsed time since the last automatic event.
pub struct TetrisGame {
    pub board: Board,
    pub current_piece: Option<Piece>,
    pub next_piece: Piece,
    pub scoring: Scoring,
    pub state: GameState,
    pub elapsed_ms: u64,
}

impl TetrisGame {
    /// The invariant every operation preserves: the board keeps its
    /// dimensions, the level is derived from the line count, the next piece
    /// waits at the spawn anchor, and the active piece, when present, sits in
    /// a legal position at a non-negative row with a reduced rotation index.
    pub open spec fn wf(&self) -> bool {
        &&& grid_wf(self.board@)
        &&& self.scoring.wf()
        &&& at_spawn(self.next_piece)
        &&& match self.current_piece {
            Some(p) => valid_piece_spec(self.board@, p) && p.y >= 0 && p.rotation < 4,
            None => true,
        }
    }

    /// A fresh game: empty board, zeroed scoring, a first piece spawned.
    pub fn new() -> (r: TetrisGame)
        ensures
            r.wf(),
            reset_post(r),
    {
        let mut game = TetrisGame {
            board: Board::new(),
            current_piece: None,
            next_piece: Piece::new(get_random_piece()),
            scoring: Scoring::new(),
            state: GameState::Playing,
            elapsed_ms: 0,
        };
        proof {
            lemma_spawn_valid_on_empty(game.next_piece);
        }
        game.spawn_piece();
        game
    }

    /// Promotes the waiting piece to active and draws a fresh next piece;
    /// acts only in the Playing state with no active piece. When the
    /// promoted piece has no room, the game is over and no piece is active:
    /// the sole path into the GameOver state.
    pub fn spawn_piece(&mut self)
        requires
            old(self).wf(),
        ensures
            final(self).wf(),
            (old(self).state != GameState::Playing || old(self).current_piece is Some)
                ==> *final(self) == *old(self),
            (old(self).state == GameState::Playing && old(self).current_piece is None) ==> {
                &&& final(self).board == old(self).board
                &&& final(self).scoring == old(self).scoring
                &&& at_spawn(final(self).next_piece)
                &&& if valid_piece_spec(old(self).board@, old(self).next_piece) {
                    &&& final(self).current_piece == Some(old(self).next_piece)
                    &&& final(self).state == GameState::Playing
                    &&& final(self).elapsed_ms == old(self).elapsed_ms
                } else {
                    &&& final(self).current_piece is None
                    &&& final(self).state == GameState::GameOver
                    &&& final(self).elapsed_ms == 0
                }
            },
    {
        if !matches!(self.state, GameState::Playing) {
            return ;
        }
        if self.current_piece.is_some() {
            return ;
        }
        let candidate = self.next_piece;
        self.next_piece = Piece::new(get_random_piece());
        if self.board.is_valid_position(&candidate) {
            self.current_piece = Some(candidate);
        } else {
            self.state = GameState::GameOver;
            self.elapsed_ms = 0;
        }
    }

    /// Shifts the active piece one column left. Rejected, with nothing
    /// changed, outside the Playing state, without an active piece, or when
    /// the shifted position would be illegal.
    pub fn move_left(&mut self) -> (r: bool)
        requires
            old(self).wf(),
        ensures
            final(self).wf(),
            r == (old(self).state == GameState::Playing && old(self).current_piece is Some
                && valid_piece_spec(
                old(self).board@,
                with_x(old(self).current_piece.unwrap(), old(self).current_piece.unwrap().x - 1),
            )),
            r ==> *final(self) == (TetrisGame {
                current_piece: Some(
                    with_x(old(self).current_piece.unwrap(), old(self).current_piece.unwrap().x - 1),
                ),
                ..*old(self)
            }),
            !r ==> *final(self) == *old(self),
    {
        if !matches!(self.state, GameState::Playing) {
            return false;
        }
        match self.current_piece {
            None => false,
            Some(p) => {
                proof {
                    lemma_valid_bounds(self.board@, p);
                }
                let mut q = p;
                q.move_left();
                if self.board.is_valid_position(&q) {
                    self.current_piece = Some(q);
                    true
                } else {
                    false
                }
            },
        }
    }

    /// Shifts the active piece one column right. Rejected, with nothing
    /// changed, outside the Playing state, without an active piece, or when
    /// the shifted position would be illegal.
    pub fn move_right(&mut self) -> (r: bool)
        requires
            old(self).wf(),
        ensures
            final(self).wf(),
            r == (old(self).state == GameState::Playing && old(self).current_piece is Some
                && valid_piece_spec(
                old(self).board@,
                with_x(old(self).current_piece.unwrap(), old(self).current_piece.unwrap().x + 1),
            )),
            r ==> *final(self) == (TetrisGame {
                current_piece: Some(
                    with_x(old(self).current_piece.unwrap(), old(self).current_piece.unwrap().x + 1),
                ),
                ..*old(self)
            }),
            !r ==> *final(self) == *old(self),
    {
        if !matches!(self.state, GameState::Playing) {
            return false;
        }
        match self.current_piece {
            None => false,
            Some(p) => {
                proof {
                    lemma_valid_bounds(self.board@, p);
                }
                let mut q = p;
                q.move_right();
                if self.board.is_valid_position(&q) {
                    self.current_piece = Some(q);
                    true
                } else {
                    false
                }
            },
        }
    }

    /// Rotates the active piece clockwise, trying the in-place position
    /// first and then the wall-kick offsets -1, +1, -2, +2; the first legal
    /// position is kept. Rejected, with the piece fully reverted, when none
    /// is legal, and always outside the Playing state or without a piece.
    pub fn rotate(&mut self) -> (r: bool)
        requires
            old(self).wf(),
        ensures
            final(self).wf(),
            r == (old(self).state == GameState::Playing && old(self).current_piece is Some
                && kick_result(old(self).board@, old(self).current_piece.unwrap()) is Some),
            r ==> *final(self) == (TetrisGame {
                current_piece: kick_result(old(self).board@, old(self).current_piece.unwrap()),
                ..*old(self)
            }),
            !r ==> *final(self) == *old(self),
    {
        if !matches!(self.state, GameState::Playing) {
            return false;
        }
        match self.current_piece {
            None => false,
            Some(p) => {
                proof {
                    lemma_valid_bounds(self.board@, p);
                }
                let mut q = p;
                q.rotate();
                if self.board.is_valid_position(&q) {
                    self.current_piece = Some(q);
                    return true;
                }
                let mut k = q;
                k.set_x(q.x() - 1);
                if self.board.is_valid_position(&k) {
                    self.current_piece = Some(k);
                    return true;
                }
                k.set_x(q.x() + 1);
                if self.board.is_valid_position(&k) {
                    self.current_piece = Some(k);
                    return true;
                }
                k.set_x(q.x() - 2);
                if self.board.is_valid_position(&k) {
                    self.current_piece = Some(k);
                    return true;
                }
                k.set_x(q.x() + 2);
                if self.board.is_valid_position(&k) {
                    self.current_piece = Some(k);
                    return true;
                }
                false
            },
        }
    }

    /// Commits the active piece into the board, clears full rows, awards
    /// line points when any cleared, and spawns the next piece.
    fn lock_piece(&mut self)
        requires
            old(self).wf(),
            old(self).state == GameState::Playing,
            old(self).current_piece is Some,
        ensures
            final(self).wf(),
            lock_outcome(*old(self), *final(self), old(self).current_piece.unwrap()),
    {
        let p = self.current_piece.unwrap();
        self.current_piece = None;
        self.board.place_piece(&p);
        let lines = self.board.clear_lines();
        if lines > 0 {
            self.scoring.add_lines(lines);
        }
        self.spawn_piece();
    }

    /// Moves the active piece one row down, awarding one soft-drop point;
    /// when it cannot move it locks where it is and reports that no further
    /// movement was possible. Rejected outside the Playing state or without
    /// an active piece.
    pub fn soft_drop(&mut self) -> (r: bool)
        requires
            old(self).wf(),
        ensures
            final(self).wf(),
            soft_drop_post(*old(self), *final(self), r),
    {
        if !matches!(self.state, GameState::Playing) {
            return false;
        }
        match self.current_piece {
            None => false,
            Some(p) => {
                proof {
                    lemma_valid_bounds(self.board@, p);
                }
                let mut q = p;
                q.move_down();
                if self.board.is_valid_position(&q) {
                    self.current_piece = Some(q);
                    self.scoring.add_soft_drop_points(1);
                    true
                } else {
                    self.lock_piece();
                    false
                }
            },
        }
    }

    /// Drops the active piece straight down to the last legal position and
    /// locks it. Every downward advance of the descent loop counts as one
    /// cell, the final blocked one included; two points are awarded per
    /// counted cell and the count is returned. Rejected (returning 0, with
    /// nothing changed) outside the Playing state or without an active piece.
    pub fn hard_drop(&mut self) -> (r: u32)
        requires
            old(self).wf(),
        ensures
            final(self).wf(),
            (old(self).state != GameState::Playing || old(self).current_piece is None)
                ==> (*final(self) == *old(self) && r == 0),
            (old(self).state == GameState::Playing && old(self).current_piece is Some) ==> {
                let p = old(self).current_piece.unwrap();
                &&& r as nat == drop_dist(old(self).board@, p) + 1
                &&& lock_outcome(
                    TetrisGame {
                        scoring: Scoring {
                            score: sat_add_u32(
                                old(self).scoring.score as int,
                                2 * r as int,
                            ) as u32,
                            ..old(self).scoring
                        },
                        ..*old(self)
                    },
                    *final(self),
                    moved_down(p, r as int - 1),
                )
            },
    {
        if !matches!(self.state, GameState::Playing) {
            return 0;
        }
        match self.current_piece {
            None => 0,
            Some(p) => {
                let ghost s0 = *self;
                proof {
                    lemma_valid_bounds(self.board@, p);
                }
                let mut q = p;
                let mut cells: u32 = 0;
                let mut fits = self.board.is_valid_position(&q);
                while fits
                    invariant
                        *self == s0,
                        s0.wf(),
                        s0.current_piece == Some(p),
                        0 <= p.y,
                        valid_piece_spec(s0.board@, p),
                        p.y + cells <= BOARD_HEIGHT + 1,
                        q == moved_down(p, cells as int),
                        fits == valid_piece_spec(s0.board@, q),
                        forall|k: int|
                            0 <= k < cells ==> valid_piece_spec(
                                s0.board@,
                                #[trigger] moved_down(p, k),
                            ),
                    decreases BOARD_HEIGHT + 1 - q.y,
                {
                    proof {
                        lemma_valid_bounds(s0.board@, q);
                    }
                    q.move_down();
                    cells += 1;
                    fits = self.board.is_valid_position(&q);
                    proof {
                        assert(q == moved_down(p, cells as int));
                    }
                }
                proof {
                    if cells == 0 {
                        assert(q == moved_down(p, 0));
                        assert(moved_down(p, 0) == p);
                        assert(false);
                    }
                }
                let d = cells - 1;
                q.set_y(q.y() - 1);
                proof {
                    assert(q == moved_down(p, d as int));
                    assert(valid_piece_spec(s0.board@, q));
                    lemma_drop_dist_char(s0.board@, p, d as nat);
                }
                self.current_piece = Some(q);
                self.scoring.add_hard_drop_points(cells);
                self.lock_piece();
                cells
            },
        }
    }

    /// Advances the clock. Paused: nothing happens. Finished: once the
    /// accumulated time passes the restart delay, the game restarts by
    /// itself. Playing: once the accumulated time reaches the level-derived
    /// drop interval, the accumulator resets and an automatic single-step
    /// descent runs, whose outcome is returned.
    pub fn update(&mut self, elapsed_ms: u64) -> (r: bool)
        requires
            old(self).wf(),
        ensures
            final(self).wf(),
            old(self).state == GameState::Paused ==> (*final(self) == *old(self) && r == true),
            old(self).state == GameState::GameOver ==> {
                let acc = sat_add_u64(old(self).elapsed_ms as int, elapsed_ms as int);
                &&& r == true
                &&& if acc > RESTART_DELAY_MS {
                    reset_post(*final(self))
                } else {
                    *final(self) == (TetrisGame { elapsed_ms: acc as u64, ..*old(self) })
                }
            },
            old(self).state == GameState::Playing ==> {
                let acc = sat_add_u64(old(self).elapsed_ms as int, elapsed_ms as int);
                if acc >= drop_speed_spec(old(self).scoring.level as int) {
                    soft_drop_post(
                        TetrisGame { elapsed_ms: 0, ..*old(self) },
                        *final(self),
                        r,
                    )
                } else {
                    r == true && *final(self) == (TetrisGame {
                        elapsed_ms: acc as u64,
                        ..*old(self)
                    })
                }
            },
    {
        match self.state {
            GameState::Paused => true,
            GameState::GameOver => {
                self.elapsed_ms = if self.elapsed_ms > u64::MAX - elapsed_ms {
                    u64::MAX
                } else {
                    self.elapsed_ms + elapsed_ms
                };
                if self.elapsed_ms > RESTART_DELAY_MS {
                    self.reset();
                }
                true
            },
            GameState::Playing => {
                self.elapsed_ms = if self.elapsed_ms > u64::MAX - elapsed_ms {
                    u64::MAX
                } else {
                    self.elapsed_ms + elapsed_ms
                };
                let speed = self.scoring.get_drop_speed();
                if self.elapsed_ms >= speed as u64 {
                    self.elapsed_ms = 0;
                    self.soft_drop()
                } else {
                    true
                }
            },
        }
    }

    /// Toggles between Playing and Paused; a finished game stays finished.
    pub fn pause(&mut self)
        ensures
            final(self).board == old(self).board,
            final(self).current_piece == old(self).current_piece,
            final(self).next_piece == old(self).next_piece,
            final(self).scoring == old(self).scoring,
            final(self).elapsed_ms == old(self).elapsed_ms,
            final(self).state == (match old(self).state {
                GameState::Playing => GameState::Paused,
                GameState::Paused => GameState::Playing,
                GameState::GameOver => GameState::GameOver,
            }),
            old(self).wf() ==> final(self).wf(),
    {
        match self.state {
            GameState::Playing => self.state = GameState::Paused,
            GameState::Paused => self.state = GameState::Playing,
            GameState::GameOver => (),
        }
    }

    /// Returns the game to its starting configuration: empty board, zeroed
    /// scoring, a fresh piece spawned, Playing. Always accepted.
    pub fn reset(&mut self)
        ensures
            final(self).wf(),
            reset_post(*final(self)),
    {
        self.board.reset();
        self.scoring.reset();
        self.current_piece = None;
        self.next_piece = Piece::new(get_random_piece());
        self.state = GameState::Playing;
        self.elapsed_ms = 0;
        proof {
            lemma_spawn_valid_on_empty(self.next_piece);
        }
        self.spawn_piece();
    }

    pub fn get_board(&self) -> (r: &Board)
        ensures
            *r == self.board,
    {
        &self.board
    }

    pub fn get_current_piece(&self) -> (r: Option<Piece>)
        ensures
            r == self.current_piece,
    {
        self.current_piece
    }

    pub fn get_next_piece(&self) -> (r: Piece)
        ensures
            r == self.next_piece,
    {
        self.next_piece
    }

    pub fn get_scoring(&self) -> (r: Scoring)
        ensures
            r == self.scoring,
    {
        self.scoring
    }

    pub fn get_state(&self) -> (r: GameState)
        ensures
            r == self.state,
    {
        self.state
    }

    pub fn is_game_over(&self) -> (r: bool)
        ensures
            r == (self.state == GameState::GameOver),
    {
        matches!(self.state, GameState::GameOver)
    }
}

} // verus!
