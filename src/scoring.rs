use vstd::prelude::*;

use crate::team::{RoleAssignment, Team};

verus! {

/// The preference score at which a player counts as fully comfortable.
pub const FULL_COMFORT: i128 = 10;

/// Added for a team none of whose players is a captain.
pub const NO_CAPTAIN_PENALTY: i128 = 3;

/// How far one assignment falls short of full comfort.
pub open spec fn discomfort(a: RoleAssignment) -> int {
    10 - a.score
}

/// The discomfort of a team's five assignments, summed.
pub open spec fn satisfaction_of(t: Seq<RoleAssignment>) -> int {
    discomfort(t[0]) + discomfort(t[1]) + discomfort(t[2]) + discomfort(t[3]) + discomfort(t[4])
}

/// Some player of the team is a captain.
pub open spec fn captained(t: Seq<RoleAssignment>) -> bool {
    exists|k: int| 0 <= k < 5 && (#[trigger] t[k]).captain
}

/// 3 for a team without a captain, else 0.
pub open spec fn captain_penalty(t: Seq<RoleAssignment>) -> int {
    if captained(t) {
        0
    } else {
        3
    }
}

/// The terms of the imbalance score that do not read ratings: the
/// satisfaction of both teams and the captain penalty of each.
pub open spec fn comfort_terms(one: Seq<RoleAssignment>, two: Seq<RoleAssignment>) -> int {
    satisfaction_of(one) + satisfaction_of(two) + captain_penalty(one) + captain_penalty(two)
}

/// The sum over the team's five roles of 10 minus the preference score of
/// the player given that role.
pub fn satisfaction(team: &Team) -> (r: i128)
    requires
        team.wf(),
    ensures
        r == satisfaction_of(team@),
{
    let mut total: i128 = 0;
    let mut role: usize = 1;
    while role <= 5
        invariant
            team.wf(),
            1 <= role <= 6,
            total == satisfaction_upto(team@, role - 1),
            -0x1_0000_0000_0000_0000 * (role - 1) <= total <= 10 * (role - 1),
        decreases 6 - role,
    {
        let score = team.assignment(role).score;
        total = total + (FULL_COMFORT - score as i128);
        role += 1;
    }
    proof {
        reveal_with_fuel(satisfaction_upto, 6);
    }
    total
}

/// The discomfort of the first `n` assignments of a team, summed.
pub open spec fn satisfaction_upto(t: Seq<RoleAssignment>, n: int) -> int
    decreases n,
{
    if n <= 0 {
        0
    } else {
        satisfaction_upto(t, n - 1) + discomfort(t[n - 1])
    }
}

/// Whether any player of the team is a captain.
pub fn has_captain(team: &Team) -> (r: bool)
    requires
        team.wf(),
    ensures
        r == captained(team@),
{
    let mut role: usize = 1;
    while role <= 5
        invariant
            team.wf(),
            1 <= role <= 6,
            forall|k: int| 0 <= k < role - 1 ==> !(#[trigger] team@[k]).captain,
        decreases 6 - role,
    {
        if team.assignment(role).captain {
            return true;
        }
        role += 1;
    }
    false
}

/// The rating-free part of the imbalance score of two teams: both teams'
/// satisfaction, plus 3 for each team without a captain.
pub fn comfort_penalty(team_one: &Team, team_two: &Team) -> (r: i128)
    requires
        team_one.wf(),
        team_two.wf(),
    ensures
        r == comfort_terms(team_one@, team_two@),
{
    let mut total = satisfaction(team_one) + satisfaction(team_two);
    if !has_captain(team_one) {
        total = total + NO_CAPTAIN_PENALTY;
    }
    if !has_captain(team_two) {
        total = total + NO_CAPTAIN_PENALTY;
    }
    total
}

/// For teams whose every preference score is at most the full-comfort
/// score of 10, the rating-free part of the imbalance score is never
/// negative.
pub proof fn comfort_terms_nonnegative(team_one: Team, team_two: Team)
    requires
        team_one.wf(),
        team_two.wf(),
        forall|k: int| 0 <= k < 5 ==> (#[trigger] team_one@[k]).score <= 10,
        forall|k: int| 0 <= k < 5 ==> (#[trigger] team_two@[k]).score <= 10,
    ensures
        comfort_terms(team_one@, team_two@) >= 0,
{
    assert(team_one@[0].score <= 10 && team_one@[1].score <= 10 && team_one@[2].score <= 10);
    assert(team_one@[3].score <= 10 && team_one@[4].score <= 10);
    assert(team_two@[0].score <= 10 && team_two@[1].score <= 10 && team_two@[2].score <= 10);
    assert(team_two@[3].score <= 10 && team_two@[4].score <= 10);
}

} // verus!
