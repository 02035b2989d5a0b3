//! Scoring: cumulative score, cleared-line count, the level curve derived
//! from it, and the level-driven automatic drop interval.
//!
//! Every operation is total. Counters are unsigned and saturate at their
//! maximum instead of wrapping, so no input sequence can make them misbehave.

use vstd::prelude::*;

verus! {

/// Addition on a 32-bit counter that sticks at the maximum.
pub open spec fn sat_add_u32(a: int, b: int) -> int {
    if a + b > u32::MAX {
        u32::MAX as int
    } else {
        a + b
    }
}

/// Points awarded for clearing `lines` rows in one event at level `level`:
/// a fixed table for one to four rows, scaled by the level; any other count
/// awards nothing (a defensive case, not a real game state).
pub open spec fn line_points(lines: int, level: int) -> int {
    if lines == 1 {
        100 * level
    } else if lines == 2 {
        300 * level
    } else if lines == 3 {
        500 * level
    } else if lines == 4 {
        800 * level
    } else {
        0
    }
}

/// Milliseconds between automatic descents at a given level: 1000 ms at
/// level 1, 100 ms less per level, floored at 100 ms from level 10 on.
pub open spec fn drop_speed_spec(level: int) -> int {
    if level == 1 {
        1000
    } else if level == 2 {
        900
    } else if level == 3 {
        800
    } else if level == 4 {
        700
    } else if level == 5 {
        600
    } else if level == 6 {
        500
    } else if level == 7 {
        400
    } else if level == 8 {
        300
    } else if level == 9 {
        200
    } else {
        100
    }
}

/// Score, level and cleared-line counters. The level is always derived from
/// the cleared-line count: one tenth of it, plus one.
#[derive(Clone, Copy)]
pub struct Scoring {
    pub score: u32,
    pub level: u32,
    pub lines_cleared: u32,
}

impl Scoring {
    /// The level invariant that every operation preserves.
    pub open spec fn wf(&self) -> bool {
        self.level == self.lines_cleared / 10 + 1
    }

    /// The counters after one line-clear event: the cleared-line count grows
    /// by `lines`, the score by the point table at the level in effect
    /// before the event, and the level is re-derived afterwards.
    pub open spec fn after_lines(self, lines: int) -> Scoring {
        let new_lines = sat_add_u32(self.lines_cleared as int, lines);
        Scoring {
            score: sat_add_u32(self.score as int, line_points(lines, self.level as int)) as u32,
            level: (new_lines / 10 + 1) as u32,
            lines_cleared: new_lines as u32,
        }
    }

    pub fn new() -> (r: Scoring)
        ensures
            r.score == 0,
            r.level == 1,
            r.lines_cleared == 0,
            r.wf(),
    {
        Scoring { score: 0, level: 1, lines_cleared: 0 }
    }

    /// Records a line-clear event: updates the cleared-line total, awards
    /// the table points at the pre-event level, then re-derives the level.
    pub fn add_lines(&mut self, lines: u32)
        requires
            old(self).wf(),
        ensures
            final(self).wf(),
            *final(self) == old(self).after_lines(lines as int),
    {
        self.lines_cleared = if self.lines_cleared > u32::MAX - lines {
            u32::MAX
        } else {
            self.lines_cleared + lines
        };
        let points: u64 = match lines {
            1 => 100u64 * self.level as u64,
            2 => 300u64 * self.level as u64,
            3 => 500u64 * self.level as u64,
            4 => 800u64 * self.level as u64,
            _ => 0,
        };
        let total: u64 = self.score as u64 + points;
        self.score = if total > u32::MAX as u64 {
            u32::MAX
        } else {
            total as u32
        };
        self.level = self.lines_cleared / 10 + 1;
    }

    /// One point per cell descended by a player-initiated single-step drop.
    pub fn add_soft_drop_points(&mut self, cells: u32)
        ensures
            final(self).score as int == sat_add_u32(old(self).score as int, cells as int),
            final(self).level == old(self).level,
            final(self).lines_cleared == old(self).lines_cleared,
    {
        self.score = if self.score > u32::MAX - cells {
            u32::MAX
        } else {
            self.score + cells
        };
    }

    /// Two points per cell descended by a player-initiated full drop.
    pub fn add_hard_drop_points(&mut self, cells: u32)
        ensures
            final(self).score as int == sat_add_u32(old(self).score as int, 2 * cells as int),
            final(self).level == old(self).level,
            final(self).lines_cleared == old(self).lines_cleared,
    {
        let total: u64 = self.score as u64 + 2 * cells as u64;
        self.score = if total > u32::MAX as u64 {
            u32::MAX
        } else {
            total as u32
        };
    }

    pub fn score(&self) -> (r: u32)
        ensures
            r == self.score,
    {
        self.score
    }

    pub fn level(&self) -> (r: u32)
        ensures
            r == self.level,
    {
        self.level
    }

    pub fn lines_cleared(&self) -> (r: u32)
        ensures
            r == self.lines_cleared,
    {
        self.lines_cleared
    }

    /// Milliseconds between automatic descents at the current level.
    pub fn get_drop_speed(&self) -> (r: u32)
        ensures
            r as int == drop_speed_spec(self.level as int),
    {
        match self.level {
            1 => 1000,
            2 => 900,
            3 => 800,
            4 => 700,
            5 => 600,
            6 => 500,
            7 => 400,
            8 => 300,
            9 => 200,
            _ => 100,
        }
    }

    /// Zeroes the score and line count and returns the level to 1.
    pub fn reset(&mut self)
        ensures
            final(self).score == 0,
            final(self).level == 1,
            final(self).lines_cleared == 0,
            final(self).wf(),
    {
        self.score = 0;
        self.level = 1;
        self.lines_cleared = 0;
    }
}

} // verus!
