//! The board: a fixed 10-by-20 occupancy grid with collision queries,
//! piece placement, line clearing and the game-over test.
//!
//! The view of a board is a sequence of rows, each a sequence of cells;
//! row 0 is the top (spawn) row. A cell holds the tag of the piece that
//! filled it, or nothing.

use crate::pieces::{lemma_shape_bounds, piece_blocks, Piece, PieceType};
use vstd::prelude::*;

verus! {

pub const BOARD_WIDTH: usize = 10;

pub const BOARD_HEIGHT: usize = 20;

/// A board is well formed when it has exactly `BOARD_HEIGHT` rows of
/// `BOARD_WIDTH` cells each; the dimensions never change after construction.
pub open spec fn grid_wf(g: Seq<Seq<Option<PieceType>>>) -> bool {
    &&& g.len() == BOARD_HEIGHT
    &&& forall|i: int| 0 <= i < g.len() ==> (#[trigger] g[i]).len() == BOARD_WIDTH
}

/// A row is full when every one of its cells is occupied.
pub open spec fn row_is_full(row: Seq<Option<PieceType>>) -> bool {
    forall|j: int| 0 <= j < row.len() ==> (#[trigger] row[j]) is Some
}

pub open spec fn empty_row() -> Seq<Option<PieceType>> {
    Seq::new(BOARD_WIDTH as nat, |j: int| None::<PieceType>)
}

pub open spec fn empty_grid() -> Seq<Seq<Option<PieceType>>> {
    Seq::new(BOARD_HEIGHT as nat, |i: int| empty_row())
}

pub open spec fn cell_count(c: Option<PieceType>) -> nat {
    if c is Some {
        1
    } else {
        0
    }
}

/// Number of occupied cells in one row.
pub open spec fn row_occupied(row: Seq<Option<PieceType>>) -> nat
    decreases row.len(),
{
    if row.len() == 0 {
        0
    } else {
        row_occupied(row.drop_last()) + cell_count(row.last())
    }
}

/// Number of occupied cells in the whole grid.
pub open spec fn grid_occupied(g: Seq<Seq<Option<PieceType>>>) -> nat
    decreases g.len(),
{
    if g.len() == 0 {
        0
    } else {
        grid_occupied(g.drop_last()) + row_occupied(g.last())
    }
}

/// A piece position is legal when every covered cell lies within the side
/// walls and above the floor, and no covered cell at a visible height
/// overlaps an occupied grid cell. Cells above the visible grid (negative
/// row) are permitted.
pub open spec fn valid_piece_spec(g: Seq<Seq<Option<PieceType>>>, p: Piece) -> bool {
    forall|i: int|
        0 <= i < piece_blocks(p).len() ==> {
            let b = #[trigger] piece_blocks(p)[i];
            &&& 0 <= b.0 < BOARD_WIDTH
            &&& b.1 < BOARD_HEIGHT
            &&& (b.1 >= 0 ==> g[b.1][b.0] is None)
        }
}

/// Whether the piece covers the grid cell in column `x` of row `y`.
pub open spec fn piece_covers(p: Piece, x: int, y: int) -> bool {
    exists|i: int| 0 <= i < piece_blocks(p).len() && #[trigger] piece_blocks(p)[i] == (x, y)
}

/// Whether one of the first `n` cells of the piece is the grid cell in
/// column `x` of row `y`.
spec fn covered_prefix(p: Piece, n: int, x: int, y: int) -> bool {
    exists|i: int| 0 <= i < n && #[trigger] piece_blocks(p)[i] == (x, y)
}

/// The grid after committing a piece: every covered in-range cell takes the
/// piece's tag, every other cell keeps its value.
pub open spec fn place_spec(g: Seq<Seq<Option<PieceType>>>, p: Piece) -> Seq<
    Seq<Option<PieceType>>,
> {
    Seq::new(
        g.len(),
        |r: int|
            Seq::new(
                g[r].len(),
                |c: int|
                    if piece_covers(p, c, r) {
                        Some(p.piece_type)
                    } else {
                        g[r][c]
                    },
            ),
    )
}

/// Number of piece cells at a visible height (row at least 0): the cells
/// that placement actually writes when the position is legal.
pub open spec fn count_on_board(bs: Seq<(int, int)>) -> nat
    decreases bs.len(),
{
    if bs.len() == 0 {
        0
    } else {
        count_on_board(bs.drop_last()) + if bs.last().1 >= 0 {
            1nat
        } else {
            0
        }
    }
}

/// The rows of a grid that are not full, in order.
pub open spec fn non_full_rows(g: Seq<Seq<Option<PieceType>>>) -> Seq<Seq<Option<PieceType>>>
    decreases g.len(),
{
    if g.len() == 0 {
        Seq::empty()
    } else if row_is_full(g.last()) {
        non_full_rows(g.drop_last())
    } else {
        non_full_rows(g.drop_last()).push(g.last())
    }
}

/// Number of full rows of a grid.
pub open spec fn full_row_count(g: Seq<Seq<Option<PieceType>>>) -> nat
    decreases g.len(),
{
    if g.len() == 0 {
        0
    } else {
        full_row_count(g.drop_last()) + if row_is_full(g.last()) {
            1nat
        } else {
            0
        }
    }
}

/// The grid after clearing: one fresh empty row on top for every full row
/// removed, then the remaining rows in their original relative order.
pub open spec fn clear_spec(g: Seq<Seq<Option<PieceType>>>) -> Seq<Seq<Option<PieceType>>> {
    Seq::new(full_row_count(g), |i: int| empty_row()) + non_full_rows(g)
}

proof fn lemma_row_occ_update(row: Seq<Option<PieceType>>, j: int, v: Option<PieceType>)
    requires
        0 <= j < row.len(),
    ensures
        row_occupied(row.update(j, v)) + cell_count(row[j]) == row_occupied(row) + cell_count(v),
    decreases row.len(),
{
    let r2 = row.update(j, v);
    if j == row.len() - 1 {
        assert(r2.drop_last() =~= row.drop_last());
        assert(r2.last() == v);
    } else {
        assert(r2.drop_last() =~= row.drop_last().update(j, v));
        assert(r2.last() == row.last());
        lemma_row_occ_update(row.drop_last(), j, v);
        assert(row.drop_last()[j] == row[j]);
    }
}

proof fn lemma_grid_occ_update(g: Seq<Seq<Option<PieceType>>>, i: int, newrow: Seq<Option<PieceType>>)
    requires
        0 <= i < g.len(),
    ensures
        grid_occupied(g.update(i, newrow)) + row_occupied(g[i]) == grid_occupied(g)
            + row_occupied(newrow),
    decreases g.len(),
{
    let g2 = g.update(i, newrow);
    if i == g.len() - 1 {
        assert(g2.drop_last() =~= g.drop_last());
        assert(g2.last() == newrow);
    } else {
        assert(g2.drop_last() =~= g.drop_last().update(i, newrow));
        assert(g2.last() == g.last());
        lemma_grid_occ_update(g.drop_last(), i, newrow);
        assert(g.drop_last()[i] == g[i]);
    }
}

proof fn lemma_count_on_board_zero(bs: Seq<(int, int)>)
    requires
        forall|i: int| 0 <= i < bs.len() ==> (#[trigger] bs[i]).1 < 0,
    ensures
        count_on_board(bs) == 0,
    decreases bs.len(),
{
    if bs.len() > 0 {
        lemma_count_on_board_zero(bs.drop_last());
    }
}

proof fn lemma_row_occupied_full(row: Seq<Option<PieceType>>)
    requires
        row_is_full(row),
    ensures
        row_occupied(row) == row.len(),
    decreases row.len(),
{
    if row.len() > 0 {
        assert(forall|j: int|
            0 <= j < row.drop_last().len() ==> #[trigger] row.drop_last()[j] == row[j]);
        lemma_row_occupied_full(row.drop_last());
    }
}

proof fn lemma_row_occupied_none(row: Seq<Option<PieceType>>)
    requires
        forall|j: int| 0 <= j < row.len() ==> (#[trigger] row[j]) is None,
    ensures
        row_occupied(row) == 0,
    decreases row.len(),
{
    if row.len() > 0 {
        assert(forall|j: int|
            0 <= j < row.drop_last().len() ==> #[trigger] row.drop_last()[j] == row[j]);
        lemma_row_occupied_none(row.drop_last());
    }
}

/// Splitting a grid into its full and non-full rows accounts for every row,
/// and keeps each surviving row as it was.
proof fn lemma_non_full_props(g: Seq<Seq<Option<PieceType>>>)
    requires
        forall|i: int| 0 <= i < g.len() ==> (#[trigger] g[i]).len() == BOARD_WIDTH,
    ensures
        non_full_rows(g).len() + full_row_count(g) == g.len(),
        forall|i: int|
            0 <= i < non_full_rows(g).len() ==> !row_is_full(#[trigger] non_full_rows(g)[i])
                && non_full_rows(g)[i].len() == BOARD_WIDTH,
    decreases g.len(),
{
    if g.len() > 0 {
        assert(forall|i: int|
            0 <= i < g.drop_last().len() ==> #[trigger] g.drop_last()[i] == g[i]);
        lemma_non_full_props(g.drop_last());
    }
}

/// Clearing removes exactly the occupied cells of the full rows.
proof fn lemma_occ_non_full(g: Seq<Seq<Option<PieceType>>>)
    requires
        forall|i: int| 0 <= i < g.len() ==> (#[trigger] g[i]).len() == BOARD_WIDTH,
    ensures
        grid_occupied(non_full_rows(g)) + BOARD_WIDTH * full_row_count(g) == grid_occupied(g),
    decreases g.len(),
{
    if g.len() > 0 {
        assert(forall|i: int|
            0 <= i < g.drop_last().len() ==> #[trigger] g.drop_last()[i] == g[i]);
        lemma_occ_non_full(g.drop_last());
        if row_is_full(g.last()) {
            lemma_row_occupied_full(g.last());
        } else {
            let nf = non_full_rows(g.drop_last());
            assert(nf.push(g.last()).drop_last() =~= nf);
            assert(nf.push(g.last()).last() == g.last());
        }
    }
}

proof fn lemma_occ_empties(k: nat)
    ensures
        grid_occupied(Seq::new(k, |i: int| empty_row())) == 0,
    decreases k,
{
    let s = Seq::new(k, |i: int| empty_row());
    if k > 0 {
        assert(s.drop_last() =~= Seq::new((k - 1) as nat, |i: int| empty_row()));
        lemma_occ_empties((k - 1) as nat);
        lemma_row_occupied_none(s.last());
    }
}

proof fn lemma_occ_concat(a: Seq<Seq<Option<PieceType>>>, b: Seq<Seq<Option<PieceType>>>)
    ensures
        grid_occupied(a + b) == grid_occupied(a) + grid_occupied(b),
    decreases b.len(),
{
    if b.len() == 0 {
        assert(a + b =~= a);
    } else {
        assert((a + b).drop_last() =~= a + b.drop_last());
        assert((a + b).last() == b.last());
        lemma_occ_concat(a, b.drop_last());
    }
}

/// The occupancy grid. Owned by the game; dimensions are fixed at
/// construction.
pub struct Board {
    grid: Vec<Vec<Option<PieceType>>>,
}

impl View for Board {
    type V = Seq<Seq<Option<PieceType>>>;

    closed spec fn view(&self) -> Seq<Seq<Option<PieceType>>> {
        self.grid@.map_values(|row: Vec<Option<PieceType>>| row@)
    }
}

fn make_empty_row() -> (r: Vec<Option<PieceType>>)
    ensures
        r@ == empty_row(),
{
    let mut r: Vec<Option<PieceType>> = Vec::new();
    let mut j: usize = 0;
    while j < BOARD_WIDTH
        invariant
            j <= BOARD_WIDTH,
            r@.len() == j,
            forall|k: int| 0 <= k < j ==> r@[k] is None,
        decreases BOARD_WIDTH - j,
    {
        r.push(None);
        j += 1;
    }
    proof {
        assert(r@ =~= empty_row());
    }
    r
}

fn make_empty_grid() -> (r: Vec<Vec<Option<PieceType>>>)
    ensures
        r@.map_values(|row: Vec<Option<PieceType>>| row@) == empty_grid(),
{
    let mut r: Vec<Vec<Option<PieceType>>> = Vec::new();
    let mut i: usize = 0;
    while i < BOARD_HEIGHT
        invariant
            i <= BOARD_HEIGHT,
            r@.len() == i,
            forall|k: int| 0 <= k < i ==> (#[trigger] r@[k])@ == empty_row(),
        decreases BOARD_HEIGHT - i,
    {
        r.push(make_empty_row());
        i += 1;
    }
    proof {
        assert(r@.map_values(|row: Vec<Option<PieceType>>| row@) =~= empty_grid());
    }
    r
}

fn copy_row(row: &Vec<Option<PieceType>>) -> (r: Vec<Option<PieceType>>)
    ensures
        r@ == row@,
{
    let mut r: Vec<Option<PieceType>> = Vec::new();
    let mut j: usize = 0;
    while j < row.len()
        invariant
            j <= row.len(),
            r@ == row@.subrange(0, j as int),
        decreases row.len() - j,
    {
        let c = row[j];
        r.push(c);
        proof {
            assert(r@ =~= row@.subrange(0, j + 1));
        }
        j += 1;
    }
    proof {
        assert(r@ =~= row@);
    }
    r
}

/// A piece in a legal position sits with its anchor inside the side walls
/// and above the floor: every shape uses its leftmost column and topmost row.
pub proof fn lemma_valid_bounds(g: Seq<Seq<Option<PieceType>>>, p: Piece)
    requires
        valid_piece_spec(g, p),
    ensures
        0 <= p.x < BOARD_WIDTH,
        p.y < BOARD_HEIGHT,
{
    lemma_shape_bounds(p.piece_type, p.rotation as nat);
    let offs = crate::pieces::shape_offsets(p.piece_type, p.rotation as nat);
    let i = choose|i: int| 0 <= i < 4 && (#[trigger] offs[i]).0 == 0;
    assert(piece_blocks(p)[i] == (p.x + offs[i].0, p.y + offs[i].1));
    let j = choose|j: int| 0 <= j < 4 && (#[trigger] offs[j]).1 == 0;
    assert(piece_blocks(p)[j] == (p.x + offs[j].0, p.y + offs[j].1));
}

/// A freshly spawned piece always fits on an empty board.
pub proof fn lemma_spawn_valid_on_empty(p: Piece)
    requires
        p.x == 4,
        p.y == 0,
        p.rotation == 0,
    ensures
        valid_piece_spec(empty_grid(), p),
{
    lemma_shape_bounds(p.piece_type, 0);
    let offs = crate::pieces::shape_offsets(p.piece_type, 0);
    assert forall|i: int| 0 <= i < piece_blocks(p).len() implies {
        let b = #[trigger] piece_blocks(p)[i];
        &&& 0 <= b.0 < BOARD_WIDTH
        &&& b.1 < BOARD_HEIGHT
        &&& (b.1 >= 0 ==> empty_grid()[b.1][b.0] is None)
    } by {
        assert(piece_blocks(p)[i] == (p.x + offs[i].0, p.y + offs[i].1));
        let b = piece_blocks(p)[i];
        assert(empty_grid()[b.1] == empty_row());
    }
}

fn row_full(row: &Vec<Option<PieceType>>) -> (r: bool)
    ensures
        r == row_is_full(row@),
{
    let mut j: usize = 0;
    while j < row.len()
        invariant
            j <= row@.len(),
            forall|k: int| 0 <= k < j ==> (#[trigger] row@[k]) is Some,
        decreases row@.len() - j,
    {
        if row[j].is_none() {
            return false;
        }
        j += 1;
    }
    true
}

impl Board {
    /// A fresh board with every cell empty.
    pub fn new() -> (r: Board)
        ensures
            r@ == empty_grid(),
            grid_wf(r@),
    {
        let b = Board { grid: make_empty_grid() };
        proof {
            assert forall|i: int| 0 <= i < b@.len() implies (#[trigger] b@[i]).len()
                == BOARD_WIDTH by {
                assert(b@[i] == empty_row());
            }
        }
        b
    }

    /// Empties every cell; the dimensions stay as they were.
    pub fn reset(&mut self)
        ensures
            final(self)@ == empty_grid(),
            grid_wf(final(self)@),
    {
        self.grid = make_empty_grid();
        proof {
            assert forall|i: int| 0 <= i < self@.len() implies (#[trigger] self@[i]).len()
                == BOARD_WIDTH by {
                assert(self@[i] == empty_row());
            }
        }
    }

    /// The grid contents, row by row.
    pub fn get_grid(&self) -> (r: &Vec<Vec<Option<PieceType>>>)
        ensures
            r@.map_values(|row: Vec<Option<PieceType>>| row@) == self@,
    {
        &self.grid
    }

    /// Whether the piece's position is legal on this board: inside the side
    /// walls, above the floor, and free of overlap with occupied cells.
    /// A pure query: neither the board nor the piece changes.
    pub fn is_valid_position(&self, piece: &Piece) -> (r: bool)
        requires
            grid_wf(self@),
        ensures
            r == valid_piece_spec(self@, *piece),
    {
        proof {
            lemma_shape_bounds(piece.piece_type, piece.rotation as nat);
        }
        if piece.x() < 0 || piece.x() > (BOARD_WIDTH as i32) - 1 || piece.y() > (
        BOARD_HEIGHT as i32) - 1 {
            proof {
                let offs = crate::pieces::shape_offsets(piece.piece_type, piece.rotation as nat);
                if piece.x < 0 {
                    let i = choose|i: int| 0 <= i < 4 && (#[trigger] offs[i]).0 == 0;
                    assert(piece_blocks(*piece)[i] == (piece.x + offs[i].0, piece.y + offs[i].1));
                    assert(!valid_piece_spec(self@, *piece));
                } else if piece.x > BOARD_WIDTH as i32 - 1 {
                    assert(piece_blocks(*piece)[0] == (piece.x + offs[0].0, piece.y + offs[0].1));
                    assert(piece_blocks(*piece)[0].0 >= piece.x);
                    assert(!valid_piece_spec(self@, *piece));
                } else {
                    let i = choose|i: int| 0 <= i < 4 && (#[trigger] offs[i]).1 == 0;
                    assert(piece_blocks(*piece)[i] == (piece.x + offs[i].0, piece.y + offs[i].1));
                    assert(!valid_piece_spec(self@, *piece));
                }
            }
            return false;
        }
        let blocks = piece.get_blocks();
        let mut i: usize = 0;
        while i < blocks.len()
            invariant
                grid_wf(self@),
                i <= blocks@.len(),
                blocks@.len() == piece_blocks(*piece).len(),
                forall|k: int|
                    0 <= k < blocks@.len() ==> ((#[trigger] blocks@[k]).0 as int,
                    blocks@[k].1 as int) == piece_blocks(*piece)[k],
                forall|k: int|
                    0 <= k < i ==> {
                        let b = #[trigger] piece_blocks(*piece)[k];
                        &&& 0 <= b.0 < BOARD_WIDTH
                        &&& b.1 < BOARD_HEIGHT
                        &&& (b.1 >= 0 ==> self@[b.1][b.0] is None)
                    },
            decreases blocks@.len() - i,
        {
            let b = blocks[i];
            if b.0 < 0 || b.0 >= BOARD_WIDTH as i32 || b.1 >= BOARD_HEIGHT as i32 {
                return false;
            }
            if b.1 >= 0 {
                if self.grid[b.1 as usize][b.0 as usize].is_some() {
                    return false;
                }
            }
            i += 1;
        }
        true
    }

    /// Commits the piece: writes its tag into every covered cell that lies
    /// inside the grid. The caller is expected to have confirmed
    /// `is_valid_position` first; this operation does not re-validate, and
    /// overwrites whatever the covered cells held. When the position was
    /// legal, the occupied-cell count grows by exactly the number of piece
    /// cells at a visible height.
    pub fn place_piece(&mut self, piece: &Piece)
        requires
            grid_wf(old(self)@),
        ensures
            grid_wf(final(self)@),
            final(self)@ == place_spec(old(self)@, *piece),
            valid_piece_spec(old(self)@, *piece) ==> grid_occupied(final(self)@)
                == grid_occupied(old(self)@) + count_on_board(piece_blocks(*piece)),
    {
        let ghost g0 = self@;
        let ghost p = *piece;
        proof {
            lemma_shape_bounds(piece.piece_type, piece.rotation as nat);
        }
        if piece.x() < -3 || piece.x() > (BOARD_WIDTH as i32) - 1 || piece.y() < -3 || piece.y()
            > (BOARD_HEIGHT as i32) - 1 {
            proof {
                let offs = crate::pieces::shape_offsets(piece.piece_type, piece.rotation as nat);
                assert forall|r: int, c: int|
                    0 <= r < g0.len() && 0 <= c < g0[r].len() implies !piece_covers(p, c, r) by {
                    if piece_covers(p, c, r) {
                        let i = choose|i: int|
                            0 <= i < piece_blocks(p).len() && #[trigger] piece_blocks(p)[i] == (
                            c,
                            r,
                            );
                        assert(piece_blocks(p)[i] == (p.x + offs[i].0, p.y + offs[i].1));
                    }
                }
                assert(self@ =~~= place_spec(g0, p));
                if valid_piece_spec(g0, p) {
                    assert forall|i: int|
                        0 <= i < piece_blocks(p).len() implies (#[trigger] piece_blocks(p)[i]).1
                        < 0 by {
                        assert(piece_blocks(p)[i] == (p.x + offs[i].0, p.y + offs[i].1));
                        if piece.x < -3 {
                            let k = choose|k: int| 0 <= k < 4 && (#[trigger] offs[k]).0 == 0;
                            assert(piece_blocks(p)[k] == (p.x + offs[k].0, p.y + offs[k].1));
                            assert(false);
                        } else if piece.x > BOARD_WIDTH as i32 - 1 {
                            assert(piece_blocks(p)[0] == (p.x + offs[0].0, p.y + offs[0].1));
                            assert(false);
                        } else if piece.y > BOARD_HEIGHT as i32 - 1 {
                            let k = choose|k: int| 0 <= k < 4 && (#[trigger] offs[k]).1 == 0;
                            assert(piece_blocks(p)[k] == (p.x + offs[k].0, p.y + offs[k].1));
                            assert(false);
                        }
                    }
                    lemma_count_on_board_zero(piece_blocks(p));
                }
            }
            return ;
        }
        let blocks = piece.get_blocks();
        let mut i: usize = 0;
        proof {
            assert(piece_blocks(p).subrange(0, 0) =~= Seq::<(int, int)>::empty());
        }
        while i < blocks.len()
            invariant
                p == *piece,
                grid_wf(self@),
                grid_wf(g0),
                i <= blocks@.len(),
                blocks@.len() == piece_blocks(p).len(),
                piece_blocks(p).len() == 4,
                forall|k: int|
                    0 <= k < blocks@.len() ==> ((#[trigger] blocks@[k]).0 as int,
                    blocks@[k].1 as int) == piece_blocks(p)[k],
                forall|k: int, l: int|
                    0 <= k < 4 && 0 <= l < 4 && k != l ==> #[trigger] piece_blocks(p)[k]
                        != #[trigger] piece_blocks(p)[l],
                forall|r: int, c: int|
                    0 <= r < BOARD_HEIGHT && 0 <= c < BOARD_WIDTH ==> #[trigger] self@[r][c] == (
                    if covered_prefix(p, i as int, c, r) {
                        Some(p.piece_type)
                    } else {
                        g0[r][c]
                    }),
                valid_piece_spec(g0, p) ==> grid_occupied(self@) == grid_occupied(g0)
                    + count_on_board(piece_blocks(p).subrange(0, i as int)),
            decreases blocks@.len() - i,
        {
            let b = blocks[i];
            let ghost pre = self@;
            if b.1 >= 0 && b.1 < BOARD_HEIGHT as i32 && b.0 >= 0 && b.0 < BOARD_WIDTH as i32 {
                let yi = b.1 as usize;
                let xi = b.0 as usize;
                proof {
                    assert(self@.len() == self.grid@.len());
                    assert(self@[yi as int] == self.grid@[yi as int]@);
                    assert(self.grid@.len() == BOARD_HEIGHT);
                    assert(self.grid@[yi as int]@.len() == BOARD_WIDTH);
                }
                let t = piece.piece_type();
                self.grid[yi][xi] = Some(t);
                proof {
                    assert(t == p.piece_type);
                    assert(self@[yi as int] == self.grid@[yi as int]@);
                    assert(self@.len() == pre.len());
                    assert(forall|r: int| 0 <= r < pre.len() && r != yi ==> self@[r] == pre[r]);
                    assert(self@[yi as int] =~= pre[yi as int].update(xi as int, Some(p.piece_type)));
                    assert(self@ =~~= pre.update(yi as int, pre[yi as int].update(xi as int, Some(p.piece_type))));
                    lemma_row_occ_update(pre[yi as int], xi as int, Some(p.piece_type));
                    lemma_grid_occ_update(pre, yi as int, pre[yi as int].update(xi as int, Some(p.piece_type)));
                }
            }
            proof {
                let bi = piece_blocks(p)[i as int];
                assert forall|r: int, c: int|
                    0 <= r < BOARD_HEIGHT && 0 <= c < BOARD_WIDTH implies #[trigger] self@[r][c]
                    == (if covered_prefix(p, i + 1, c, r) {
                    Some(p.piece_type)
                } else {
                    g0[r][c]
                }) by {
                    if covered_prefix(p, i + 1, c, r) && !covered_prefix(p, i as int, c, r) {
                        assert(piece_blocks(p)[i as int] == (c, r));
                    }
                    if covered_prefix(p, i as int, c, r) {
                        let j = choose|j: int|
                            0 <= j < i && #[trigger] piece_blocks(p)[j] == (c, r);
                        assert(covered_prefix(p, i + 1, c, r));
                    }
                }
                if valid_piece_spec(g0, p) {
                    assert(piece_blocks(p).subrange(0, i + 1).drop_last() =~= piece_blocks(
                        p,
                    ).subrange(0, i as int));
                    assert(piece_blocks(p).subrange(0, i + 1).last() == bi);
                    if bi.1 >= 0 {
                        assert(!covered_prefix(p, i as int, bi.0, bi.1));
                        assert(pre[bi.1][bi.0] == g0[bi.1][bi.0]);
                        assert(g0[bi.1][bi.0] is None);
                    }
                }
            }
            i += 1;
        }
        proof {
            assert(piece_blocks(p).subrange(0, piece_blocks(p).len() as int) =~= piece_blocks(p));
            assert forall|r: int, c: int|
                0 <= r < BOARD_HEIGHT && 0 <= c < BOARD_WIDTH implies (piece_covers(p, c, r)
                <==> covered_prefix(p, piece_blocks(p).len() as int, c, r)) by {}
            assert(self@ =~~= place_spec(g0, p));
        }
    }

    /// Removes every full row and inserts one fresh empty row at the top for
    /// each, preserving the relative order of the remaining rows; returns the
    /// number of rows cleared. Afterwards no row is full and the row count is
    /// unchanged; exactly the occupied cells of the removed rows are gone.
    pub fn clear_lines(&mut self) -> (r: u32)
        requires
            grid_wf(old(self)@),
        ensures
            grid_wf(final(self)@),
            r as nat == full_row_count(old(self)@),
            final(self)@ == clear_spec(old(self)@),
            forall|i: int| 0 <= i < final(self)@.len() ==> !row_is_full(#[trigger] final(self)@[i]),
            grid_occupied(final(self)@) + BOARD_WIDTH * full_row_count(old(self)@)
                == grid_occupied(old(self)@),
    {
        let ghost g0 = self@;
        let mut kept: Vec<Vec<Option<PieceType>>> = Vec::new();
        let mut i: usize = 0;
        proof {
            assert(g0.subrange(0, 0) =~= Seq::<Seq<Option<PieceType>>>::empty());
        }
        while i < BOARD_HEIGHT
            invariant
                grid_wf(self@),
                self@ == g0,
                i <= BOARD_HEIGHT,
                kept@.map_values(|row: Vec<Option<PieceType>>| row@) == non_full_rows(
                    g0.subrange(0, i as int),
                ),
            decreases BOARD_HEIGHT - i,
        {
            let ghost pref = g0.subrange(0, i as int);
            let ghost kept0 = kept@.map_values(|row: Vec<Option<PieceType>>| row@);
            proof {
                assert(self@.len() == self.grid@.len());
                assert(self@[i as int] == self.grid@[i as int]@);
                assert(g0.subrange(0, i + 1).drop_last() =~= pref);
                assert(g0.subrange(0, i + 1).last() == g0[i as int]);
            }
            let full = row_full(&self.grid[i]);
            if !full {
                let rowcopy = copy_row(&self.grid[i]);
                kept.push(rowcopy);
                proof {
                    assert(kept@.map_values(|row: Vec<Option<PieceType>>| row@) =~= kept0.push(
                        g0[i as int],
                    ));
                }
            }
            i += 1;
        }
        proof {
            assert(g0.subrange(0, BOARD_HEIGHT as int) =~= g0);
            lemma_non_full_props(g0);
            assert(kept@.len() == non_full_rows(g0).len());
        }
        let cleared = BOARD_HEIGHT - kept.len();
        let mut newgrid: Vec<Vec<Option<PieceType>>> = Vec::new();
        let mut k: usize = 0;
        while k < cleared
            invariant
                k <= cleared,
                newgrid@.len() == k,
                forall|m: int| 0 <= m < k ==> (#[trigger] newgrid@[m])@ == empty_row(),
            decreases cleared - k,
        {
            newgrid.push(make_empty_row());
            k += 1;
        }
        let ghost kept_rows = kept@.map_values(|row: Vec<Option<PieceType>>| row@);
        newgrid.append(&mut kept);
        self.grid = newgrid;
        proof {
            let fc = full_row_count(g0);
            let nf = non_full_rows(g0);
            assert(cleared as nat == fc);
            assert(self@.len() == self.grid@.len());
            assert forall|m: int| 0 <= m < self@.len() implies #[trigger] self@[m] == clear_spec(
                g0,
            )[m] by {
                assert(self@[m] == self.grid@[m]@);
                if m >= cleared {
                    assert(self.grid@[m]@ == kept_rows[m - cleared as int]);
                }
            }
            assert(self@ =~= clear_spec(g0));
            assert(!row_is_full(empty_row())) by {
                assert(empty_row()[0] is None);
            }
            lemma_occ_concat(Seq::new(fc, |i: int| empty_row()), nf);
            lemma_occ_empties(fc);
            lemma_occ_non_full(g0);
        }
        cleared as u32
    }

    /// True exactly when some cell of the top row is occupied.
    pub fn is_game_over(&self) -> (r: bool)
        requires
            grid_wf(self@),
        ensures
            r == exists|j: int| 0 <= j < BOARD_WIDTH && (#[trigger] self@[0][j]) is Some,
    {
        let mut j: usize = 0;
        while j < BOARD_WIDTH
            invariant
                grid_wf(self@),
                j <= BOARD_WIDTH,
                forall|k: int| 0 <= k < j ==> (#[trigger] self@[0][k]) is None,
            decreases BOARD_WIDTH - j,
        {
            if self.grid[0][j].is_some() {
                return true;
            }
            j += 1;
        }
        false
    }

    /// The number of occupied cells on the board.
    pub fn occupied_count(&self) -> (r: u32)
        requires
            grid_wf(self@),
        ensures
            r as nat == grid_occupied(self@),
    {
        let mut total: u32 = 0;
        let mut i: usize = 0;
        proof {
            assert(self@.subrange(0, 0) =~= Seq::<Seq<Option<PieceType>>>::empty());
        }
        while i < BOARD_HEIGHT
            invariant
                grid_wf(self@),
                i <= BOARD_HEIGHT,
                total as nat == grid_occupied(self@.subrange(0, i as int)),
                total <= 10 * i,
            decreases BOARD_HEIGHT - i,
        {
            let row = &self.grid[i];
            let mut j: usize = 0;
            let mut in_row: u32 = 0;
            proof {
                assert(self@[i as int].subrange(0, 0) =~= Seq::<Option<PieceType>>::empty());
            }
            while j < row.len()
                invariant
                    row@ == self@[i as int],
                    i < BOARD_HEIGHT,
                    grid_wf(self@),
                    j <= row@.len(),
                    in_row as nat == row_occupied(row@.subrange(0, j as int)),
                    in_row <= j,
                decreases row@.len() - j,
            {
                if row[j].is_some() {
                    in_row += 1;
                }
                proof {
                    assert(row@.subrange(0, j + 1).drop_last() =~= row@.subrange(0, j as int));
                    assert(row@.subrange(0, j + 1).last() == row@[j as int]);
                }
                j += 1;
            }
            proof {
                assert(row@.subrange(0, row@.len() as int) =~= row@);
                assert(self@.subrange(0, i + 1).drop_last() =~= self@.subrange(0, i as int));
                assert(self@.subrange(0, i + 1).last() == self@[i as int]);
            }
            total += in_row;
            i += 1;
        }
        proof {
            assert(self@.subrange(0, BOARD_HEIGHT as int) =~= self@);
        }
        total
    }
}

} // verus!
