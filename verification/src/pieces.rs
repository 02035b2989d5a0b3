//! Piece geometry and kinematics: the seven standard shapes, their
//! rotation states, and the active piece (anchor position + rotation index).
//!
//! A piece never validates its own position; legality is the board's
//! business (`crate::board`).

use rand::Rng;
use vstd::prelude::*;

verus! {

/// The seven standard piece shapes.
#[derive(Clone, Copy, PartialEq, Eq, Structural, Debug)]
pub enum PieceType {
    I,
    O,
    T,
    S,
    Z,
    J,
    L,
}

/// Number of distinct orientations of a piece type: advancing the rotation
/// index by this much leaves the covered cells unchanged.
pub open spec fn rotation_period(t: PieceType) -> nat {
    match t {
        PieceType::I => 2,
        PieceType::O => 1,
        PieceType::T => 4,
        PieceType::S => 2,
        PieceType::Z => 2,
        PieceType::J => 4,
        PieceType::L => 4,
    }
}

/// Cell offsets `(column, row)` relative to the anchor that a piece of type
/// `t` covers at rotation index `r`, in row-major order of its bounding box.
pub open spec fn shape_offsets(t: PieceType, r: nat) -> Seq<(int, int)> {
    match t {
        PieceType::I => if r % 2 == 0 {
            seq![(0int, 0int), (1int, 0int), (2int, 0int), (3int, 0int)]
        } else {
            seq![(0int, 0int), (0int, 1int), (0int, 2int), (0int, 3int)]
        },
        PieceType::O => seq![(0int, 0int), (1int, 0int), (0int, 1int), (1int, 1int)],
        PieceType::T => if r % 4 == 0 {
            seq![(1int, 0int), (0int, 1int), (1int, 1int), (2int, 1int)]
        } else if r % 4 == 1 {
            seq![(0int, 0int), (0int, 1int), (1int, 1int), (0int, 2int)]
        } else if r % 4 == 2 {
            seq![(0int, 0int), (1int, 0int), (2int, 0int), (1int, 1int)]
        } else {
            seq![(1int, 0int), (0int, 1int), (1int, 1int), (1int, 2int)]
        },
        PieceType::S => if r % 2 == 0 {
            seq![(1int, 0int), (2int, 0int), (0int, 1int), (1int, 1int)]
        } else {
            seq![(0int, 0int), (0int, 1int), (1int, 1int), (1int, 2int)]
        },
        PieceType::Z => if r % 2 == 0 {
            seq![(0int, 0int), (1int, 0int), (1int, 1int), (2int, 1int)]
        } else {
            seq![(1int, 0int), (0int, 1int), (1int, 1int), (0int, 2int)]
        },
        PieceType::J => if r % 4 == 0 {
            seq![(0int, 0int), (0int, 1int), (1int, 1int), (2int, 1int)]
        } else if r % 4 == 1 {
            seq![(0int, 0int), (1int, 0int), (0int, 1int), (0int, 2int)]
        } else if r % 4 == 2 {
            seq![(0int, 0int), (1int, 0int), (2int, 0int), (2int, 1int)]
        } else {
            seq![(1int, 0int), (1int, 1int), (0int, 2int), (1int, 2int)]
        },
        PieceType::L => if r % 4 == 0 {
            seq![(2int, 0int), (0int, 1int), (1int, 1int), (2int, 1int)]
        } else if r % 4 == 1 {
            seq![(0int, 0int), (0int, 1int), (0int, 2int), (1int, 2int)]
        } else if r % 4 == 2 {
            seq![(0int, 0int), (1int, 0int), (2int, 0int), (0int, 1int)]
        } else {
            seq![(0int, 0int), (1int, 0int), (1int, 1int), (1int, 2int)]
        },
    }
}

/// An active piece: a shape, an anchor position in grid coordinates, and a
/// rotation index. The covered cells are derived from `(piece_type, rotation)`
/// alone; the position is not self-validating.
#[derive(Clone, Copy)]
pub struct Piece {
    pub piece_type: PieceType,
    pub x: i32,
    pub y: i32,
    pub rotation: usize,
}

/// Absolute grid cells `(x, y)` covered by a piece, in row-major order.
pub open spec fn piece_blocks(p: Piece) -> Seq<(int, int)> {
    shape_offsets(p.piece_type, p.rotation as nat).map(|i: int, o: (int, int)| (p.x + o.0, p.y + o.1))
}

/// Every shape covers exactly four cells inside a 4-by-4 box whose leftmost
/// column and topmost row are both used, and no cell twice.
pub proof fn lemma_shape_bounds(t: PieceType, r: nat)
    ensures
        shape_offsets(t, r).len() == 4,
        forall|i: int| 0 <= i < 4 ==> {
            let o = #[trigger] shape_offsets(t, r)[i];
            0 <= o.0 <= 3 && 0 <= o.1 <= 3
        },
        exists|i: int| 0 <= i < 4 && (#[trigger] shape_offsets(t, r)[i]).0 == 0,
        exists|i: int| 0 <= i < 4 && (#[trigger] shape_offsets(t, r)[i]).1 == 0,
        forall|i: int, j: int|
            0 <= i < 4 && 0 <= j < 4 && i != j ==> #[trigger] shape_offsets(t, r)[i]
                != #[trigger] shape_offsets(t, r)[j],
{
    let s = shape_offsets(t, r);
    assert(s[0].0 == 0 || s[1].0 == 0 || s[2].0 == 0 || s[3].0 == 0);
    assert(s[0].1 == 0 || s[1].1 == 0 || s[2].1 == 0 || s[3].1 == 0);
}

/// Rotation periodicity: a piece covers the same cells at rotation index `r`
/// and at rotation index `r` plus its type's rotation period.
pub proof fn lemma_rotation_period(t: PieceType, r: nat)
    ensures
        shape_offsets(t, (r + rotation_period(t)) as nat) == shape_offsets(t, r),
{
    vstd::arithmetic::div_mod::lemma_mod_add_multiples_vanish(r as int, 2);
    vstd::arithmetic::div_mod::lemma_mod_add_multiples_vanish(r as int, 4);
    vstd::arithmetic::div_mod::lemma_mod_add_multiples_vanish(r as int + 2, 2);
    vstd::arithmetic::div_mod::lemma_mod_add_multiples_vanish(r as int + 4, 4);
}

impl Piece {
    /// A freshly spawned piece: anchored at the spawn cell, unrotated.
    pub fn new(piece_type: PieceType) -> (r: Piece)
        ensures
            r.piece_type == piece_type,
            r.x == 4,
            r.y == 0,
            r.rotation == 0,
    {
        Piece { piece_type, x: 4, y: 0, rotation: 0 }
    }

    pub fn x(&self) -> (r: i32)
        ensures
            r == self.x,
    {
        self.x
    }

    pub fn y(&self) -> (r: i32)
        ensures
            r == self.y,
    {
        self.y
    }

    pub fn piece_type(&self) -> (r: PieceType)
        ensures
            r == self.piece_type,
    {
        self.piece_type
    }

    /// Shifts the anchor one cell left; the caller validates the result.
    pub fn move_left(&mut self)
        requires
            old(self).x > i32::MIN,
        ensures
            final(self).x == old(self).x - 1,
            final(self).y == old(self).y,
            final(self).piece_type == old(self).piece_type,
            final(self).rotation == old(self).rotation,
    {
        self.x = self.x - 1;
    }

    /// Shifts the anchor one cell right; the caller validates the result.
    pub fn move_right(&mut self)
        requires
            old(self).x < i32::MAX,
        ensures
            final(self).x == old(self).x + 1,
            final(self).y == old(self).y,
            final(self).piece_type == old(self).piece_type,
            final(self).rotation == old(self).rotation,
    {
        self.x = self.x + 1;
    }

    /// Shifts the anchor one cell down; the caller validates the result.
    pub fn move_down(&mut self)
        requires
            old(self).y < i32::MAX,
        ensures
            final(self).y == old(self).y + 1,
            final(self).x == old(self).x,
            final(self).piece_type == old(self).piece_type,
            final(self).rotation == old(self).rotation,
    {
        self.y = self.y + 1;
    }

    /// Advances the rotation index; the caller validates the result and
    /// reverts (or kicks) on failure.
    pub fn rotate(&mut self)
        requires
            old(self).rotation < usize::MAX,
        ensures
            final(self).rotation == (old(self).rotation + 1) % 4,
            final(self).x == old(self).x,
            final(self).y == old(self).y,
            final(self).piece_type == old(self).piece_type,
    {
        self.rotation = (self.rotation + 1) % 4;
    }

    pub fn set_x(&mut self, x: i32)
        ensures
            final(self).x == x,
            final(self).y == old(self).y,
            final(self).piece_type == old(self).piece_type,
            final(self).rotation == old(self).rotation,
    {
        self.x = x;
    }

    pub fn set_y(&mut self, y: i32)
        ensures
            final(self).y == y,
            final(self).x == old(self).x,
            final(self).piece_type == old(self).piece_type,
            final(self).rotation == old(self).rotation,
    {
        self.y = y;
    }

    /// The absolute grid cells this piece covers, in row-major order.
    pub fn get_blocks(&self) -> (r: Vec<(i32, i32)>)
        requires
            self.x <= i32::MAX - 3,
            self.y <= i32::MAX - 3,
        ensures
            r@.len() == piece_blocks(*self).len(),
            forall|i: int|
                0 <= i < r@.len() ==> ((#[trigger] r@[i]).0 as int, r@[i].1 as int)
                    == piece_blocks(*self)[i],
    {
        proof {
            lemma_shape_bounds(self.piece_type, self.rotation as nat);
        }
        let mut r: Vec<(i32, i32)> = Vec::new();
        match self.piece_type {
            PieceType::I => {
                if self.rotation % 2 == 0 {
                    r.push((self.x, self.y));
                    r.push((self.x + 1, self.y));
                    r.push((self.x + 2, self.y));
                    r.push((self.x + 3, self.y));
                } else {
                    r.push((self.x, self.y));
                    r.push((self.x, self.y + 1));
                    r.push((self.x, self.y + 2));
                    r.push((self.x, self.y + 3));
                }
            },
            PieceType::O => {
                r.push((self.x, self.y));
                r.push((self.x + 1, self.y));
                r.push((self.x, self.y + 1));
                r.push((self.x + 1, self.y + 1));
            },
            PieceType::T => {
                if self.rotation % 4 == 0 {
                    r.push((self.x + 1, self.y));
                    r.push((self.x, self.y + 1));
                    r.push((self.x + 1, self.y + 1));
                    r.push((self.x + 2, self.y + 1));
                } else if self.rotation % 4 == 1 {
                    r.push((self.x, self.y));
                    r.push((self.x, self.y + 1));
                    r.push((self.x + 1, self.y + 1));
                    r.push((self.x, self.y + 2));
                } else if self.rotation % 4 == 2 {
                    r.push((self.x, self.y));
                    r.push((self.x + 1, self.y));
                    r.push((self.x + 2, self.y));
                    r.push((self.x + 1, self.y + 1));
                } else {
                    r.push((self.x + 1, self.y));
                    r.push((self.x, self.y + 1));
                    r.push((self.x + 1, self.y + 1));
                    r.push((self.x + 1, self.y + 2));
                }
            },
            PieceType::S => {
                if self.rotation % 2 == 0 {
                    r.push((self.x + 1, self.y));
                    r.push((self.x + 2, self.y));
                    r.push((self.x, self.y + 1));
                    r.push((self.x + 1, self.y + 1));
                } else {
                    r.push((self.x, self.y));
                    r.push((self.x, self.y + 1));
                    r.push((self.x + 1, self.y + 1));
                    r.push((self.x + 1, self.y + 2));
                }
            },
            PieceType::Z => {
                if self.rotation % 2 == 0 {
                    r.push((self.x, self.y));
                    r.push((self.x + 1, self.y));
                    r.push((self.x + 1, self.y + 1));
                    r.push((self.x + 2, self.y + 1));
                } else {
                    r.push((self.x + 1, self.y));
                    r.push((self.x, self.y + 1));
                    r.push((self.x + 1, self.y + 1));
                    r.push((self.x, self.y + 2));
                }
            },
            PieceType::J => {
                if self.rotation % 4 == 0 {
                    r.push((self.x, self.y));
                    r.push((self.x, self.y + 1));
                    r.push((self.x + 1, self.y + 1));
                    r.push((self.x + 2, self.y + 1));
                } else if self.rotation % 4 == 1 {
                    r.push((self.x, self.y));
                    r.push((self.x + 1, self.y));
                    r.push((self.x, self.y + 1));
                    r.push((self.x, self.y + 2));
                } else if self.rotation % 4 == 2 {
                    r.push((self.x, self.y));
                    r.push((self.x + 1, self.y));
                    r.push((self.x + 2, self.y));
                    r.push((self.x + 2, self.y + 1));
                } else {
                    r.push((self.x + 1, self.y));
                    r.push((self.x + 1, self.y + 1));
                    r.push((self.x, self.y + 2));
                    r.push((self.x + 1, self.y + 2));
                }
            },
            PieceType::L => {
                if self.rotation % 4 == 0 {
                    r.push((self.x + 2, self.y));
                    r.push((self.x, self.y + 1));
                    r.push((self.x + 1, self.y + 1));
                    r.push((self.x + 2, self.y + 1));
                } else if self.rotation % 4 == 1 {
                    r.push((self.x, self.y));
                    r.push((self.x, self.y + 1));
                    r.push((self.x, self.y + 2));
                    r.push((self.x + 1, self.y + 2));
                } else if self.rotation % 4 == 2 {
                    r.push((self.x, self.y));
                    r.push((self.x + 1, self.y));
                    r.push((self.x + 2, self.y));
                    r.push((self.x, self.y + 1));
                } else {
                    r.push((self.x, self.y));
                    r.push((self.x + 1, self.y));
                    r.push((self.x + 1, self.y + 1));
                    r.push((self.x + 1, self.y + 2));
                }
            },
        }
        r
    }
}

/// Relies on `rand::Rng::gen_range`: the result is drawn uniformly from the
/// half-open range handed to it, so in particular it is below 7.
#[verifier::external_body]
fn random_piece_index() -> (r: u32)
    ensures
        r < 7,
{
    rand::thread_rng().gen_range(0..7)
}

/// Draws one of the seven piece types uniformly at random.
pub fn get_random_piece() -> PieceType {
    let idx = random_piece_index();
    match idx {
        0 => PieceType::I,
        1 => PieceType::O,
        2 => PieceType::T,
        3 => PieceType::S,
        4 => PieceType::Z,
        5 => PieceType::J,
        _ => PieceType::L,
    }
}

/// The canonical display color of a piece type.
pub open spec fn piece_color_spec(t: PieceType) -> Seq<char> {
    match t {
        PieceType::I => "#00f0f0"@,
        PieceType::O => "#f0f000"@,
        PieceType::T => "#a000f0"@,
        PieceType::S => "#00f000"@,
        PieceType::Z => "#f00000"@,
        PieceType::J => "#0000f0"@,
        PieceType::L => "#f0a000"@,
    }
}

pub fn get_piece_color(piece_type: PieceType) -> (r: &'static str)
    ensures
        r@ == piece_color_spec(piece_type),
{
    match piece_type {
        PieceType::I => "#00f0f0",
        PieceType::O => "#f0f000",
        PieceType::T => "#a000f0",
        PieceType::S => "#00f000",
        PieceType::Z => "#f00000",
        PieceType::J => "#0000f0",
        PieceType::L => "#f0a000",
    }
}

} // verus!
