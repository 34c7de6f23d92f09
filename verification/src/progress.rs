//! Score and level: what the player has earned, and how cleared rows add up
//! to the next level.

use vstd::prelude::*;

verus! {

/// The highest level.
pub const MAX_LEVEL: usize = 29;

/// The most that one clearing can add to the score.
pub const MAX_GAIN: usize = 36000;

/// The points for clearing `rows` rows at once, before the level counts in.
/// Four rows and any larger number earn the same.
pub open spec fn points(rows: nat) -> nat {
    if rows == 0 {
        0
    } else if rows == 1 {
        40
    } else if rows == 2 {
        100
    } else if rows == 3 {
        300
    } else {
        1200
    }
}

/// What clearing `rows` rows at once adds to the score at `level`.
pub open spec fn score_gain(level: nat, rows: nat) -> nat {
    (level + 1) * points(rows)
}

/// The number of cleared rows that `level` asks for before the next level:
/// ten more for each level up to level 8, and from there ten times the level
/// less fifty, kept between 100 and 200.
pub open spec fn threshold(level: nat) -> nat {
    if level <= 8 {
        level * 10 + 10
    } else if level * 10 - 50 < 100 {
        100
    } else if level * 10 - 50 > 200 {
        200
    } else {
        (level * 10 - 50) as nat
    }
}

/// The progress of a game as a value.
pub struct Standing {
    pub score: nat,
    pub level: nat,
    pub lines: nat,
}

impl Standing {
    /// The level is not above the highest.
    pub open spec fn wf(self) -> bool {
        self.level <= MAX_LEVEL
    }

    /// The standing after `rows` rows were cleared at once. The score grows
    /// by the gain at the level before the event. The rows are added to the
    /// count; if the count has reached the threshold of the level before the
    /// event, the level goes up by one, not above the highest, and the
    /// threshold is taken off the count. One event raises the level by one at
    /// most.
    pub open spec fn advanced(self, rows: nat) -> Standing {
        let count = self.lines + rows;
        let goal = threshold(self.level);
        Standing {
            score: self.score + score_gain(self.level, rows),
            level: {
                let raised = if count >= goal {
                    self.level + 1
                } else {
                    self.level
                };
                if raised > MAX_LEVEL {
                    MAX_LEVEL as nat
                } else {
                    raised
                }
            },
            lines: if count >= goal {
                (count - goal) as nat
            } else {
                count
            },
        }
    }

    /// The standing after a reset: score and level are zero, and the count
    /// of rows towards the next level stays.
    pub open spec fn restarted(self) -> Standing {
        Standing { score: 0, level: 0, lines: self.lines }
    }
}

/// Score, level and the count of cleared rows towards the next level.
#[derive(Clone, Copy, Debug)]
pub struct Progress {
    score: usize,
    level: usize,
    lines: u32,
}

impl View for Progress {
    type V = Standing;

    closed spec fn view(&self) -> Standing {
        Standing { score: self.score as nat, level: self.level as nat, lines: self.lines as nat }
    }
}

impl Progress {
    /// The level is not above the highest.
    pub open spec fn wf(&self) -> bool {
        self@.wf()
    }

    /// Whether the counters have room for a clearing of `rows` rows.
    pub open spec fn has_room(&self, rows: nat) -> bool {
        &&& self@.score + score_gain(self@.level, rows) <= usize::MAX
        &&& self@.lines + rows <= u32::MAX
    }

    /// No score, level 0, no rows counted.
    pub fn new() -> (progress: Progress)
        ensures
            progress.wf(),
            progress@ == (Standing { score: 0, level: 0, lines: 0 }),
    {
        Progress { score: 0, level: 0, lines: 0 }
    }

    pub fn score(&self) -> (score: usize)
        ensures
            score == self@.score,
    {
        self.score
    }

    pub fn level(&self) -> (level: usize)
        ensures
            level == self@.level,
    {
        self.level
    }

    /// The rows counted towards the next level.
    pub fn lines(&self) -> (lines: u32)
        ensures
            lines == self@.lines,
    {
        self.lines
    }

    /// Whether the counters have room for a clearing of `rows` rows.
    pub fn can_record(&self, rows: usize) -> (ok: bool)
        requires
            self.wf(),
        ensures
            ok == self.has_room(rows as nat),
    {
        let gain: usize = gain_for(self.level, rows);
        gain <= usize::MAX - self.score && rows <= (u32::MAX - self.lines) as usize
    }

    /// Takes note that `rows` rows were cleared at once.
    pub fn record_clear(&mut self, rows: usize)
        requires
            old(self).wf(),
            old(self).has_room(rows as nat),
        ensures
            final(self).wf(),
            final(self)@ == old(self)@.advanced(rows as nat),
            final(self)@.score >= old(self)@.score,
            old(self)@.level <= final(self)@.level <= old(self)@.level + 1,
    {
        let level: usize = self.level;
        self.score = self.score + gain_for(level, rows);
        let goal: u32 = threshold_for(level);
        let count: u32 = self.lines + rows as u32;
        if count >= goal {
            if level < MAX_LEVEL {
                self.level = level + 1;
            }
            self.lines = count - goal;
        } else {
            self.lines = count;
        }
    }

    /// Sets score and level back to zero. The count of rows towards the next
    /// level stays.
    pub fn reset(&mut self)
        ensures
            final(self).wf(),
            final(self)@ == old(self)@.restarted(),
    {
        self.score = 0;
        self.level = 0;
    }
}

/// The points for clearing `rows` rows at once at `level`.
pub fn gain_for(level: usize, rows: usize) -> (gain: usize)
    requires
        level <= MAX_LEVEL,
    ensures
        gain == score_gain(level as nat, rows as nat),
        gain <= MAX_GAIN,
{
    let base: usize = match rows {
        0 => 0,
        1 => 40,
        2 => 100,
        3 => 300,
        _ => 1200,
    };
    assert((level + 1) * base <= 30 * 1200) by (nonlinear_arith)
        requires
            level <= 29,
            base <= 1200,
    ;
    (level + 1) * base
}

/// The number of cleared rows that `level` asks for before the next level.
pub fn threshold_for(level: usize) -> (goal: u32)
    requires
        level <= MAX_LEVEL,
    ensures
        goal == threshold(level as nat),
        10 <= goal <= 200,
{
    if level <= 8 {
        (level * 10 + 10) as u32
    } else {
        let raw: usize = level * 10 - 50;
        if raw < 100 {
            100
        } else if raw > 200 {
            200
        } else {
            raw as u32
        }
    }
}

/// No clearing adds more to the score than four rows at the highest level.
pub proof fn lemma_gain_is_bounded(level: nat, rows: nat)
    requires
        level <= MAX_LEVEL,
    ensures
        score_gain(level, rows) <= MAX_GAIN,
{
    assert((level + 1) * points(rows) <= 30 * 1200) by (nonlinear_arith)
        requires
            level <= 29,
            points(rows) <= 1200,
    ;
}

/// The score never falls, and the level never falls, rises by one at most and
/// stays at or below the highest.
pub proof fn lemma_progress_only_rises(standing: Standing, rows: nat)
    requires
        standing.wf(),
    ensures
        standing.advanced(rows).wf(),
        standing.advanced(rows).score >= standing.score,
        standing.level <= standing.advanced(rows).level <= standing.level + 1,
        rows == 0 ==> standing.advanced(rows).score == standing.score,
{
    assert((standing.level + 1) * points(rows) >= 0) by (nonlinear_arith);
}

} // verus!
