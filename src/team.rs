use vstd::prelude::*;

use crate::chance::shuffle_players;
use crate::error::MatchError;
use crate::player::{is_role, lemma_without, PlayerDetails, ROSTER_SIZE};

verus! {

/// The player given one role of a team, with what scoring reads of them.
#[derive(Debug, Clone)]
pub struct RoleAssignment {
    pub role: usize,
    pub name: String,
    /// The player's preference score for `role`.
    pub score: usize,
    /// The rating's IEEE-754 single bit pattern; see `PlayerDetails::base_mmr`.
    pub base_mmr: u32,
    pub captain: bool,
}

impl RoleAssignment {
    /// This assignment gives `role` to `p`, who is willing to take it.
    pub open spec fn gives(&self, p: PlayerDetails, role: int) -> bool {
        &&& self.role == role
        &&& self.name == p.name
        &&& self.base_mmr == p.base_mmr
        &&& self.captain == p.captain
        &&& self.score == p.pref(role)
        &&& p.willing(role)
    }
}

/// A complete team: one assignment for each of the roles 1 to 5.
#[derive(Debug, Clone)]
pub struct Team {
    slots: Vec<RoleAssignment>,
}

impl View for Team {
    type V = Seq<RoleAssignment>;

    /// The assignments, the one for role `k + 1` at index `k`.
    closed spec fn view(&self) -> Seq<RoleAssignment> {
        self.slots@
    }
}

/// `owner` sends the five role slots one to one onto the five players.
pub open spec fn is_bijection(owner: Seq<int>) -> bool {
    &&& owner.len() == 5
    &&& forall|k: int| 0 <= k < 5 ==> 0 <= #[trigger] owner[k] < 5
    &&& forall|k1: int, k2: int|
        0 <= k1 < 5 && 0 <= k2 < 5 && k1 != k2 ==> owner[k1] != owner[k2]
    &&& forall|i: int| 0 <= i < 5 ==> #[trigger] owner.contains(i)
}

impl Team {
    /// Role `k + 1` sits at index `k`, for all five roles.
    pub open spec fn wf(&self) -> bool {
        &&& self@.len() == 5
        &&& forall|k: int| 0 <= k < 5 ==> (#[trigger] self@[k]).role == k + 1
    }

    /// The team was assembled from exactly the five `players`: each role goes
    /// to a different one of them, willing to take it.
    pub open spec fn assembled_from(&self, players: Seq<PlayerDetails>) -> bool {
        &&& self.wf()
        &&& players.len() == 5
        &&& exists|owner: Seq<int>|
            {
                &&& is_bijection(owner)
                &&& forall|k: int| 0 <= k < 5 ==> (#[trigger] self@[k]).gives(players[owner[k]], k + 1)
            }
    }

    /// The assignment for `role`.
    pub fn assignment(&self, role: usize) -> (r: &RoleAssignment)
        requires
            self.wf(),
            is_role(role as int),
        ensures
            *r == self@[role - 1],
    {
        &self.slots[role - 1]
    }

    /// Replaces the rating carried for `role`, as scoring does when it
    /// discounts ratings for comfort.
    pub fn set_rating(&mut self, role: usize, base_mmr: u32)
        requires
            old(self).wf(),
            is_role(role as int),
        ensures
            final(self).wf(),
            final(self)@.len() == 5,
            final(self)@[role - 1].base_mmr == base_mmr,
            final(self)@[role - 1].role == old(self)@[role - 1].role,
            final(self)@[role - 1].name == old(self)@[role - 1].name,
            final(self)@[role - 1].score == old(self)@[role - 1].score,
            final(self)@[role - 1].captain == old(self)@[role - 1].captain,
            forall|k: int| 0 <= k < 5 && k != role - 1 ==> final(self)@[k] == old(self)@[k],
    {
        let mut a = self.slots.remove(role - 1);
        a.base_mmr = base_mmr;
        self.slots.insert(role - 1, a);
    }
}

/// How many times a team is attempted before assembly gives up.
pub const MAX_ATTEMPTS: usize = 10;

/// Every one of `players` is willing to take every role.
pub open spec fn all_willing(players: Seq<PlayerDetails>) -> bool {
    forall|i: int, role: int|
        0 <= i < players.len() && is_role(role) ==> #[trigger] players[i].willing(role)
}

/// One attempt at a team: the five players, in the order given, each take a
/// random role among those still open. The attempt fails as soon as a player
/// finds none of their roles open; when every player would take any role, it
/// cannot fail.
pub fn handle_team(players: &[PlayerDetails]) -> (r: Result<Team, MatchError>)
    requires
        players@.len() == 5,
    ensures
        match r {
            Ok(t) => t.assembled_from(players@),
            Err(e) => e == MatchError::RoleUnavailable,
        },
        all_willing(players@) ==> r is Ok,
{
    let mut available: Vec<usize> = vec![1, 2, 3, 4, 5];
    let mut slots: Vec<Option<RoleAssignment>> = vec![None, None, None, None, None];
    let ghost mut owner: Seq<int> = seq![0int, 0, 0, 0, 0];
    let ghost mut slot_of: Seq<int> = Seq::empty();
    proof {
        assert forall|k: int|
            0 <= k < 5 implies (available@.contains((k + 1) as usize) <==> (
            #[trigger] slots@[k]) is None) by {
            assert(available@[k] == (k + 1) as usize);
        }
    }
    let mut i: usize = 0;
    while i < 5
        invariant
            players@.len() == 5,
            0 <= i <= 5,
            available@.len() == 5 - i,
            available@.no_duplicates(),
            forall|j: int| 0 <= j < available.len() ==> is_role(#[trigger] available@[j] as int),
            slots@.len() == 5,
            owner.len() == 5,
            slot_of.len() == i,
            forall|k: int|
                0 <= k < 5 ==> (available@.contains((k + 1) as usize) <==> (
                #[trigger] slots@[k]) is None),
            forall|k: int|
                0 <= k < 5 && (#[trigger] slots@[k]) is Some ==> 0 <= owner[k] < i
                    && slots@[k]->0.gives(players@[owner[k]], k + 1),
            forall|k1: int, k2: int|
                0 <= k1 < 5 && 0 <= k2 < 5 && k1 != k2 && slots@[k1] is Some && slots@[k2] is Some
                    ==> owner[k1] != owner[k2],
            forall|j: int|
                0 <= j < i ==> 0 <= #[trigger] slot_of[j] < 5 && slots@[slot_of[j]] is Some
                    && owner[slot_of[j]] == j,
        decreases 5 - i,
    {
        let player = &players[i];
        let ghost pool = available@;
        let ghost old_slots = slots@;
        match player.random_role(&mut available) {
            Ok((role, score)) => {
                proof {
                    lemma_without(pool, role);
                }
                let a = RoleAssignment {
                    role,
                    name: player.name.clone(),
                    score,
                    base_mmr: player.base_mmr,
                    captain: player.captain,
                };
                slots.set(role - 1, Some(a));
                proof {
                    owner = owner.update(role - 1, i as int);
                    slot_of = slot_of.push(role - 1);
                    assert forall|k: int|
                        0 <= k < 5 implies (available@.contains((k + 1) as usize) <==> (
                        #[trigger] slots@[k]) is None) by {
                        assert(pool.contains((k + 1) as usize) <==> old_slots[k] is None);
                    }
                    assert forall|j: int|
                        0 <= j < available.len() implies is_role(
                        #[trigger] available@[j] as int,
                    ) by {
                        let x = available@[j];
                        assert(available@.contains(x));
                        let m = choose|m: int| 0 <= m < pool.len() && pool[m] == x;
                    }
                }
            },
            Err(e) => {
                proof {
                    if all_willing(players@) {
                        let r0 = available@[0];
                        assert(players@[i as int].willing(r0 as int));
                        assert(player.can_take(pool, r0 as int));
                    }
                }
                return Err(e);
            },
        }
        i += 1;
    }
    let ghost filled = slots@;
    proof {
        assert forall|k: int| 0 <= k < 5 implies (#[trigger] filled[k]) is Some by {
            if filled[k] is None {
                assert(available@.contains((k + 1) as usize));
            }
        }
    }
    let mut assigned: Vec<RoleAssignment> = Vec::new();
    let mut k: usize = 0;
    while k < 5
        invariant
            0 <= k <= 5,
            filled.len() == 5,
            slots@ == filled.subrange(k as int, 5),
            assigned.len() == k,
            forall|m: int| 0 <= m < 5 ==> (#[trigger] filled[m]) is Some,
            forall|m: int| 0 <= m < k ==> filled[m] == Some(#[trigger] assigned@[m]),
        decreases 5 - k,
    {
        let s = slots.remove(0);
        proof {
            assert(s == filled[k as int]);
        }
        if let Some(a) = s {
            assigned.push(a);
        }
        k += 1;
    }
    let team = Team { slots: assigned };
    proof {
        assert forall|j: int| 0 <= j < 5 implies #[trigger] owner.contains(j) by {
            assert(owner[slot_of[j]] == j);
        }
        assert forall|m: int| 0 <= m < 5 implies 0 <= #[trigger] owner[m] < 5 by {
            assert(filled[m] is Some);
        }
        assert forall|k1: int, k2: int|
            0 <= k1 < 5 && 0 <= k2 < 5 && k1 != k2 implies owner[k1] != owner[k2] by {
            assert(filled[k1] is Some);
            assert(filled[k2] is Some);
        }
        assert(is_bijection(owner));
        assert forall|m: int| 0 <= m < 5 implies (#[trigger] team@[m]).gives(
            players@[owner[m]],
            m + 1,
        ) by {
            assert(filled[m] == Some(assigned@[m]));
        }
    }
    Ok(team)
}

/// Assembles a team from the five players, making up to `MAX_ATTEMPTS`
/// independent attempts and returning the first that succeeds.
pub fn try_handle_team(input: &[PlayerDetails]) -> (r: Result<Team, MatchError>)
    requires
        input@.len() == 5,
    ensures
        match r {
            Ok(t) => t.assembled_from(input@),
            Err(e) => e == MatchError::AssemblyExhausted,
        },
        all_willing(input@) ==> r is Ok,
{
    let mut attempt: usize = 0;
    while attempt < MAX_ATTEMPTS
        invariant
            input@.len() == 5,
            attempt <= MAX_ATTEMPTS,
            all_willing(input@) ==> attempt == 0,
        decreases MAX_ATTEMPTS - attempt,
    {
        if let Ok(team) = handle_team(input) {
            return Ok(team);
        }
        attempt += 1;
    }
    Err(MatchError::AssemblyExhausted)
}

/// One trial: shuffles the roster, then assembles a team from each half, the
/// first five players and the last five.
pub fn generate_scenario(players: &mut Vec<PlayerDetails>) -> (r: Result<(Team, Team), MatchError>)
    requires
        old(players).len() == ROSTER_SIZE,
    ensures
        final(players)@.to_multiset() == old(players)@.to_multiset(),
        final(players).len() == ROSTER_SIZE,
        match r {
            Ok((one, two)) => {
                &&& one.assembled_from(final(players)@.subrange(0, 5))
                &&& two.assembled_from(final(players)@.subrange(5, 10))
            },
            Err(e) => e == MatchError::AssemblyExhausted,
        },
        all_willing(old(players)@) ==> r is Ok,
{
    let ghost before = players@;
    shuffle_players(players);
    proof {
        before.to_multiset_ensures();
        players@.to_multiset_ensures();
        if all_willing(before) {
            assert forall|i: int, role: int|
                0 <= i < players@.len() && is_role(role) implies #[trigger] players@[i].willing(
                role,
            ) by {
                let p = players@[i];
                assert(players@.contains(p));
                vstd::seq_lib::to_multiset_contains(players@, p);
                vstd::seq_lib::to_multiset_contains(before, p);
                assert(before.contains(p));
                let j = choose|j: int| 0 <= j < before.len() && before[j] == p;
                assert(before[j].willing(role));
            }
        }
    }
    let first = vstd::slice::slice_subrange(players.as_slice(), 0, 5);
    let team_one = try_handle_team(first)?;
    let second = vstd::slice::slice_subrange(players.as_slice(), 5, 10);
    let team_two = try_handle_team(second)?;
    Ok((team_one, team_two))
}

/// Some assignment of the team names the player.
pub open spec fn names_player(team: Seq<RoleAssignment>, p: PlayerDetails) -> bool {
    exists|k: int| 0 <= k < 5 && (#[trigger] team[k]).name == p.name
}

/// A completed team holds each of the roles 1 to 5 exactly once.
pub proof fn team_covers_roles(team: Team, players: Seq<PlayerDetails>)
    requires
        team.assembled_from(players),
    ensures
        team@.len() == 5,
        forall|k1: int, k2: int|
            0 <= k1 < 5 && 0 <= k2 < 5 && k1 != k2 ==> team@[k1].role != team@[k2].role,
        forall|r: int| is_role(r) <==> exists|k: int| 0 <= k < 5 && (#[trigger] team@[k]).role == r,
{
    assert forall|r: int| is_role(r) implies exists|k: int|
        0 <= k < 5 && (#[trigger] team@[k]).role == r by {
        assert(team@[r - 1].role == r);
    }
}

/// Every input player's name stands in a completed team, given to one role
/// only, and every name in it is an input player's.
pub proof fn team_names_are_players(team: Team, players: Seq<PlayerDetails>)
    requires
        team.assembled_from(players),
    ensures
        exists|owner: Seq<int>|
            {
                &&& is_bijection(owner)
                &&& forall|k: int|
                    0 <= k < 5 ==> (#[trigger] team@[k]).name == players[owner[k]].name
            },
        forall|i: int| 0 <= i < 5 ==> #[trigger] names_player(team@, players[i]),
{
    let owner = choose|owner: Seq<int>|
        {
            &&& is_bijection(owner)
            &&& forall|k: int| 0 <= k < 5 ==> (#[trigger] team@[k]).gives(players[owner[k]], k + 1)
        };
    assert forall|k: int| 0 <= k < 5 implies (#[trigger] team@[k]).name == players[owner[k]].name by {
        assert(team@[k].gives(players[owner[k]], k + 1));
    }
    assert forall|i: int| 0 <= i < 5 implies #[trigger] names_player(team@, players[i]) by {
        assert(owner.contains(i));
        let k = choose|k: int| 0 <= k < owner.len() && owner[k] == i;
        assert(team@[k].name == players[owner[k]].name);
    }
}

/// Every player of a completed team has a strictly positive preference score
/// for the role they were given.
pub proof fn team_roles_are_willing(team: Team, players: Seq<PlayerDetails>)
    requires
        team.assembled_from(players),
    ensures
        forall|k: int| 0 <= k < 5 ==> (#[trigger] team@[k]).score > 0,
        forall|k: int, i: int|
            0 <= k < 5 && 0 <= i < 5 && (#[trigger] team@[k]).gives(#[trigger] players[i], k + 1)
                ==> players[i].pref(k + 1) > 0,
{
    let owner = choose|owner: Seq<int>|
        {
            &&& is_bijection(owner)
            &&& forall|k: int| 0 <= k < 5 ==> (#[trigger] team@[k]).gives(players[owner[k]], k + 1)
        };
    assert forall|k: int| 0 <= k < 5 implies (#[trigger] team@[k]).score > 0 by {
        assert(team@[k].gives(players[owner[k]], k + 1));
    }
}

} // verus!
