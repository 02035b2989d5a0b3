//! The verified core of the companion arcade snake game: the snake's body,
//! its heading, movement, and the tail slot kept for restoration after a
//! meal, plus the grid-to-pixel coordinate scaling.
//!
//! The body is a sequence of blocks, head first. Moving forward pushes a new
//! head and retires the last block into the tail slot; restoring the tail
//! appends it back, which is how the snake grows.

use vstd::prelude::*;

verus! {

/// Pixel width of one grid block.
pub const BLOCK_SIZE: u32 = 25;

/// A grid coordinate scaled to pixels, stuck at the largest 32-bit value
/// when the product would not fit.
pub open spec fn to_coord_spec(game_coord: int) -> int {
    if game_coord * BLOCK_SIZE > u32::MAX {
        u32::MAX as int
    } else {
        game_coord * BLOCK_SIZE
    }
}

pub fn to_coord_u32(game_coord: u32) -> (r: u32)
    ensures
        r as int == to_coord_spec(game_coord as int),
{
    let wide: u64 = game_coord as u64 * 25;
    if wide > u32::MAX as u64 {
        u32::MAX
    } else {
        wide as u32
    }
}

#[derive(Clone, Copy, PartialEq, Eq, Structural, Debug)]
pub enum Direction {
    Up,
    Down,
    Left,
    Right,
}

/// The direction opposite to a given one.
pub open spec fn opposite_spec(d: Direction) -> Direction {
    match d {
        Direction::Up => Direction::Down,
        Direction::Down => Direction::Up,
        Direction::Left => Direction::Right,
        Direction::Right => Direction::Left,
    }
}

impl Direction {
    pub fn opposite(&self) -> (r: Direction)
        ensures
            r == opposite_spec(*self),
    {
        match *self {
            Direction::Up => Direction::Down,
            Direction::Down => Direction::Up,
            Direction::Left => Direction::Right,
            Direction::Right => Direction::Left,
        }
    }
}

/// One cell of the snake's body, in grid coordinates.
#[derive(Clone, Copy, PartialEq, Eq, Structural, Debug)]
pub struct Block {
    pub x: u32,
    pub y: u32,
}

/// The grid cell one step from `(x, y)` in direction `d`; the vertical axis
/// grows downwards.
pub open spec fn step_spec(x: int, y: int, d: Direction) -> (int, int) {
    match d {
        Direction::Up => (x, y - 1),
        Direction::Down => (x, y + 1),
        Direction::Left => (x - 1, y),
        Direction::Right => (x + 1, y),
    }
}

/// Whether a step in direction `d` from `(x, y)` stays within the 32-bit
/// grid coordinates.
pub open spec fn step_in_range(x: int, y: int, d: Direction) -> bool {
    match d {
        Direction::Up => y > 0,
        Direction::Down => y < u32::MAX,
        Direction::Left => x > 0,
        Direction::Right => x < u32::MAX,
    }
}

/// The snake: its body head-first, its heading, and the detached tail block
/// kept for possible restoration. The body is never empty.
pub struct Snake {
    pub body: Vec<Block>,
    pub direction: Direction,
    pub tail: Option<Block>,
}

impl Snake {
    /// The invariant every operation preserves: the snake always has a head.
    pub open spec fn wf(&self) -> bool {
        self.body@.len() > 0
    }

    /// A snake of three blocks in a row, heading right, with its head at
    /// `(x + 2, y)`.
    pub fn new(x: u32, y: u32) -> (r: Snake)
        requires
            x + 2 <= u32::MAX,
        ensures
            r.wf(),
            r.body@ == seq![
                Block { x: (x + 2) as u32, y },
                Block { x: (x + 1) as u32, y },
                Block { x, y },
            ],
            r.direction == Direction::Right,
            r.tail is None,
    {
        let mut body: Vec<Block> = Vec::new();
        body.push(Block { x: x + 2, y });
        body.push(Block { x: x + 1, y });
        body.push(Block { x, y });
        proof {
            assert(body@ =~= seq![
                Block { x: (x + 2) as u32, y },
                Block { x: (x + 1) as u32, y },
                Block { x, y },
            ]);
        }
        Snake { body, direction: Direction::Right, tail: None }
    }

    /// The head's grid position.
    pub fn head_position(&self) -> (r: (u32, u32))
        requires
            self.wf(),
        ensures
            r.0 == self.body@[0].x,
            r.1 == self.body@[0].y,
    {
        let head_block = &self.body[0];
        (head_block.x, head_block.y)
    }

    /// The current heading.
    pub fn head_direction(&self) -> (r: Direction)
        ensures
            r == self.direction,
    {
        self.direction
    }

    /// The cell the head would enter by moving in `dir` (or, absent an
    /// override, in the current heading).
    pub fn next_head(&self, dir: Option<Direction>) -> (r: (u32, u32))
        requires
            self.wf(),
            step_in_range(
                self.body@[0].x as int,
                self.body@[0].y as int,
                dir.unwrap_or(self.direction),
            ),
        ensures
            (r.0 as int, r.1 as int) == step_spec(
                self.body@[0].x as int,
                self.body@[0].y as int,
                dir.unwrap_or(self.direction),
            ),
    {
        let (head_x, head_y) = self.head_position();
        let moving_dir = match dir {
            Some(d) => d,
            None => self.direction,
        };
        match moving_dir {
            Direction::Up => (head_x, head_y - 1),
            Direction::Down => (head_x, head_y + 1),
            Direction::Left => (head_x - 1, head_y),
            Direction::Right => (head_x + 1, head_y),
        }
    }

    /// Advances one cell: adopts the override direction if one is given,
    /// pushes the new head, and retires the last body block into the tail
    /// slot.
    pub fn move_forward(&mut self, dir: Option<Direction>)
        requires
            old(self).wf(),
            step_in_range(
                old(self).body@[0].x as int,
                old(self).body@[0].y as int,
                dir.unwrap_or(old(self).direction),
            ),
        ensures
            final(self).wf(),
            final(self).direction == dir.unwrap_or(old(self).direction),
            final(self).body@.len() == old(self).body@.len(),
            (final(self).body@[0].x as int, final(self).body@[0].y as int) == step_spec(
                old(self).body@[0].x as int,
                old(self).body@[0].y as int,
                dir.unwrap_or(old(self).direction),
            ),
            final(self).body@.skip(1) == old(self).body@.drop_last(),
            final(self).tail == Some(old(self).body@.last()),
    {
        match dir {
            Some(d) => self.direction = d,
            None => (),
        }
        let (last_x, last_y) = self.head_position();
        let new_block = match self.direction {
            Direction::Up => Block { x: last_x, y: last_y - 1 },
            Direction::Down => Block { x: last_x, y: last_y + 1 },
            Direction::Left => Block { x: last_x - 1, y: last_y },
            Direction::Right => Block { x: last_x + 1, y: last_y },
        };
        let ghost mid = self.body@;
        self.body.insert(0, new_block);
        let remove_block = self.body.pop().unwrap();
        self.tail = Some(remove_block);
        proof {
            assert(self.body@.skip(1) =~= mid.drop_last());
        }
    }

    /// Puts the retired tail block back at the end of the body, if one is
    /// held: how the snake grows after a meal.
    pub fn restore_tail(&mut self)
        ensures
            final(self).tail is None,
            final(self).direction == old(self).direction,
            final(self).body@ == (match old(self).tail {
                Some(b) => old(self).body@.push(b),
                None => old(self).body@,
            }),
            old(self).wf() ==> final(self).wf(),
    {
        let blk = self.tail.take();
        match blk {
            Some(b) => self.body.push(b),
            None => (),
        }
    }

    /// Whether `(x, y)` lies on the body behind the head.
    pub fn overlap_tail(&self, x: u32, y: u32) -> (r: bool)
        ensures
            r == exists|i: int|
                1 <= i < self.body@.len() && self.body@[i].x == x && self.body@[i].y == y,
    {
        let mut i: usize = 1;
        while i < self.body.len()
            invariant
                1 <= i,
                i <= self.body@.len() || i == 1,
                forall|k: int| 1 <= k < i ==> !(self.body@[k].x == x && self.body@[k].y == y),
            decreases self.body@.len() - i,
    {
            let b = &self.body[i];
            if b.x == x && b.y == y {
                return true;
            }
            i += 1;
        }
        false
    }
}

} // verus!
