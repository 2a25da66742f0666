use vstd::prelude::*;

use crate::error::MatchError;
use crate::team::Team;

verus! {

/// The bit pattern of +∞ as an IEEE-754 single: the best score before any
/// trial has succeeded, which every finite score beats.
pub const UNBEATEN: u32 = 0x7f80_0000;

/// The sign bit of an IEEE-754 single.
pub const SIGN_BIT: u32 = 0x8000_0000;

/// The bit pattern of an IEEE-754 single encodes a NaN.
pub open spec fn is_nan_bits(bits: u32) -> bool {
    bits % 0x8000_0000 > 0x7f80_0000
}

/// The magnitude of a single's bit pattern, signed: on patterns that are
/// not NaN it orders them as the values they encode, with both zeros at 0.
pub open spec fn rank(bits: u32) -> int {
    if bits >= 0x8000_0000 {
        -(bits - 0x8000_0000)
    } else {
        bits as int
    }
}

/// The single encoded by `a` is less than the one encoded by `b`; never
/// when either is NaN.
pub open spec fn score_lt(a: u32, b: u32) -> bool {
    !is_nan_bits(a) && !is_nan_bits(b) && rank(a) < rank(b)
}

/// Compares two scores given as IEEE-754 single bit patterns, as `<` does
/// on the values.
pub fn score_less(a: u32, b: u32) -> (r: bool)
    ensures
        r == score_lt(a, b),
{
    let mag_a = a % SIGN_BIT;
    let mag_b = b % SIGN_BIT;
    if mag_a > UNBEATEN || mag_b > UNBEATEN {
        return false;
    }
    let neg_a = a >= SIGN_BIT;
    let neg_b = b >= SIGN_BIT;
    if neg_a && neg_b {
        mag_a > mag_b
    } else if neg_a {
        mag_a > 0 || mag_b > 0
    } else if neg_b {
        false
    } else {
        mag_a < mag_b
    }
}

/// A pair of teams with their imbalance score, as an IEEE-754 single bit
/// pattern.
#[derive(Debug, Clone)]
pub struct Solution {
    pub score: u32,
    pub team_one: Team,
    pub team_two: Team,
}

/// The state of a search: the trials still to run, the best score so far,
/// and the archive of improving solutions, best first.
#[derive(Debug, Clone)]
pub struct SearchDriver {
    trials_left: usize,
    best_score: u32,
    solutions: Vec<Solution>,
}

/// Scores strictly increase from the front of `archive` to its back.
pub open spec fn strictly_increasing(archive: Seq<Solution>) -> bool {
    forall|i: int, j: int|
        0 <= i < j < archive.len() ==> score_lt(
            #[trigger] archive[i].score,
            #[trigger] archive[j].score,
        )
}

impl SearchDriver {
    pub closed spec fn remaining(&self) -> nat {
        self.trials_left as nat
    }

    pub closed spec fn best(&self) -> u32 {
        self.best_score
    }

    pub closed spec fn archive(&self) -> Seq<Solution> {
        self.solutions@
    }

    /// The archive is strictly increasing and holds complete teams, no score
    /// in it is NaN, and the best score is its front's, or +∞ while it is
    /// empty.
    pub open spec fn wf(&self) -> bool {
        &&& strictly_increasing(self.archive())
        &&& forall|i: int|
            0 <= i < self.archive().len() ==> !is_nan_bits(#[trigger] self.archive()[i].score)
        &&& forall|i: int|
            0 <= i < self.archive().len() ==> (#[trigger] self.archive()[i]).team_one.wf()
                && self.archive()[i].team_two.wf()
        &&& self.best() == if self.archive().len() == 0 {
            UNBEATEN
        } else {
            self.archive()[0].score
        }
    }

    /// A search that will run `trials` trials, with an empty archive.
    pub fn new(trials: usize) -> (r: SearchDriver)
        ensures
            r.wf(),
            r.remaining() == trials,
            r.archive().len() == 0,
            r.best() == UNBEATEN,
    {
        SearchDriver { trials_left: trials, best_score: UNBEATEN, solutions: Vec::new() }
    }

    pub fn trials_left(&self) -> (r: usize)
        ensures
            r == self.remaining(),
    {
        self.trials_left
    }

    /// Whether every trial has been run.
    pub fn is_finished(&self) -> (r: bool)
        ensures
            r == (self.remaining() == 0),
    {
        self.trials_left == 0
    }

    /// The best score so far, +∞ before any trial succeeded.
    pub fn best_score(&self) -> (r: u32)
        ensures
            r == self.best(),
    {
        self.best_score
    }

    /// The archive, best first.
    pub fn solutions(&self) -> (r: &Vec<Solution>)
        ensures
            r@ == self.archive(),
    {
        &self.solutions
    }

    /// Ends the search and hands the archive over, best first.
    pub fn into_solutions(self) -> (r: Vec<Solution>)
        ensures
            r@ == self.archive(),
    {
        self.solutions
    }

    /// Counts one trial. A scored pair of teams whose score is strictly below
    /// the best so far becomes the new best and goes to the front of the
    /// archive; an equal or worse score, or a failed trial, changes nothing
    /// else.
    pub fn record_trial(&mut self, outcome: Result<(u32, Team, Team), MatchError>)
        requires
            old(self).wf(),
            old(self).remaining() > 0,
            outcome matches Ok((_, one, two)) ==> one.wf() && two.wf(),
        ensures
            final(self).wf(),
            final(self).remaining() == old(self).remaining() - 1,
            match outcome {
                Ok((score, one, two)) => if score_lt(score, old(self).best()) {
                    &&& final(self).best() == score
                    &&& final(self).archive() == seq![
                        (Solution { score, team_one: one, team_two: two }),
                    ] + old(self).archive()
                } else {
                    &&& final(self).best() == old(self).best()
                    &&& final(self).archive() == old(self).archive()
                },
                Err(_) => {
                    &&& final(self).best() == old(self).best()
                    &&& final(self).archive() == old(self).archive()
                },
            },
    {
        self.trials_left = self.trials_left - 1;
        if let Ok((score, one, two)) = outcome {
            if score_less(score, self.best_score) {
                let ghost before = self.solutions@;
                self.best_score = score;
                self.solutions.insert(0, Solution { score, team_one: one, team_two: two });
                proof {
                    assert(self.solutions@ == seq![
                        (Solution { score, team_one: one, team_two: two }),
                    ] + before);
                }
            }
        }
    }
}

/// At every point of a search, archive scores strictly increase from the
/// first solution to the last, so the first is the best found.
pub proof fn archive_strictly_increasing(search: SearchDriver)
    requires
        search.wf(),
    ensures
        forall|i: int, j: int|
            0 <= i < j < search.archive().len() ==> rank(search.archive()[i].score) < rank(
                search.archive()[j].score,
            ),
        forall|j: int|
            0 < j < search.archive().len() ==> score_lt(search.best(), search.archive()[j].score),
{
    assert forall|i: int, j: int|
        0 <= i < j < search.archive().len() implies rank(search.archive()[i].score) < rank(
        search.archive()[j].score,
    ) by {
        assert(score_lt(search.archive()[i].score, search.archive()[j].score));
    }
    assert forall|j: int|
        0 < j < search.archive().len() implies score_lt(search.best(), search.archive()[j].score) by {
        assert(score_lt(search.archive()[0].score, search.archive()[j].score));
    }
}

} // verus!
