use vstd::prelude::*;

use crate::chance::random_below;
use crate::error::MatchError;

verus! {

/// The number of players a roster holds.
pub const ROSTER_SIZE: usize = 10;

/// Whether `role` names one of the five positional roles.
pub open spec fn is_role(role: int) -> bool {
    1 <= role <= 5
}

/// `pool` with every occurrence of `role` taken out, the rest in order.
pub open spec fn without(pool: Seq<usize>, role: usize) -> Seq<usize> {
    pool.filter(other_than(role))
}

/// The test that keeps every entry but `role`.
pub open spec fn other_than(role: usize) -> spec_fn(usize) -> bool {
    |x: usize| x != role
}

/// One roster entry. Players are never changed once built; the search only
/// copies and reorders them.
#[derive(Debug, Clone)]
pub struct PlayerDetails {
    pub name: String,
    /// The base skill rating, as the bit pattern of an IEEE-754 single. The
    /// library carries it and never reads it.
    pub base_mmr: u32,
    pub captain: bool,
    pub pos1_score: usize,
    pub pos2_score: usize,
    pub pos3_score: usize,
    pub pos4_score: usize,
    pub pos5_score: usize,
}

impl PlayerDetails {
    /// The player's preference score for `role`; 0 outside the five roles.
    pub open spec fn pref(&self, role: int) -> int {
        if role == 1 {
            self.pos1_score as int
        } else if role == 2 {
            self.pos2_score as int
        } else if role == 3 {
            self.pos3_score as int
        } else if role == 4 {
            self.pos4_score as int
        } else if role == 5 {
            self.pos5_score as int
        } else {
            0
        }
    }

    /// A willing role: one of the five with a positive preference score.
    pub open spec fn willing(&self, role: int) -> bool {
        is_role(role) && self.pref(role) > 0
    }

    /// A role the player is willing to take that `pool` still offers.
    pub open spec fn can_take(&self, pool: Seq<usize>, role: int) -> bool {
        self.willing(role) && pool.contains(role as usize)
    }

    pub fn new(
        name: String,
        base_mmr: u32,
        captain: bool,
        pos1_score: usize,
        pos2_score: usize,
        pos3_score: usize,
        pos4_score: usize,
        pos5_score: usize,
    ) -> (p: PlayerDetails)
        ensures
            p.name == name,
            p.base_mmr == base_mmr,
            p.captain == captain,
            p.pos1_score == pos1_score,
            p.pos2_score == pos2_score,
            p.pos3_score == pos3_score,
            p.pos4_score == pos4_score,
            p.pos5_score == pos5_score,
    {
        PlayerDetails {
            name,
            base_mmr,
            captain,
            pos1_score,
            pos2_score,
            pos3_score,
            pos4_score,
            pos5_score,
        }
    }

    /// The preference score for `role`.
    pub fn preference(&self, role: usize) -> (r: usize)
        requires
            is_role(role as int),
        ensures
            r == self.pref(role as int),
    {
        if role == 1 {
            self.pos1_score
        } else if role == 2 {
            self.pos2_score
        } else if role == 3 {
            self.pos3_score
        } else if role == 4 {
            self.pos4_score
        } else {
            self.pos5_score
        }
    }

    /// The roles of `available` that the player is willing to take, in
    /// ascending order.
    pub fn candidate_roles(&self, available: &Vec<usize>) -> (r: Vec<usize>)
        ensures
            forall|i: int| 0 <= i < r.len() ==> self.can_take(available@, r[i] as int),
            forall|i: int, j: int| 0 <= i < j < r.len() ==> r[i] < r[j],
            forall|role: int| #[trigger]
                self.can_take(available@, role) ==> r@.contains(role as usize),
    {
        let mut r: Vec<usize> = Vec::new();
        let mut role: usize = 1;
        while role <= 5
            invariant
                1 <= role <= 6,
                forall|i: int|
                    0 <= i < r.len() ==> self.can_take(available@, r[i] as int) && r[i] < role,
                forall|i: int, j: int| 0 <= i < j < r.len() ==> r[i] < r[j],
                forall|x: int|
                    1 <= x < role && #[trigger] self.can_take(available@, x) ==> r@.contains(
                        x as usize,
                    ),
            decreases 6 - role,
        {
            if self.preference(role) > 0 && holds_role(available, role) {
                let ghost before = r@;
                r.push(role);
                proof {
                    assert forall|x: int|
                        1 <= x < role && #[trigger] self.can_take(available@, x) implies r@.contains(
                        x as usize,
                    ) by {
                        let k = choose|k: int| 0 <= k < before.len() && before[k] == x as usize;
                        assert(r@[k] == x as usize);
                    }
                    assert(r@[r.len() - 1] == role);
                }
            }
            role += 1;
        }
        r
    }

    /// The roles the player is willing to take, in ascending order.
    pub fn willing_roles(&self) -> (r: Vec<usize>)
        ensures
            forall|i: int| 0 <= i < r.len() ==> self.willing(r[i] as int),
            forall|i: int, j: int| 0 <= i < j < r.len() ==> r[i] < r[j],
            forall|role: int| #[trigger] self.willing(role) ==> r@.contains(role as usize),
    {
        let all: Vec<usize> = vec![1, 2, 3, 4, 5];
        let r = self.candidate_roles(&all);
        proof {
            assert forall|role: int| #[trigger] self.willing(role) implies r@.contains(
                role as usize,
            ) by {
                assert(all@[role - 1] == role as usize);
                assert(self.can_take(all@, role));
            }
        }
        r
    }

    /// Picks, uniformly at random, a role that the player is willing to take
    /// from `available_roles`, takes it out of the pool, and returns it with
    /// the player's preference score for it. Fails, leaving the pool as it
    /// was, when no role of the pool suits the player.
    pub fn random_role(&self, available_roles: &mut Vec<usize>) -> (r: Result<
        (usize, usize),
        MatchError,
    >)
        ensures
            r is Err <==> forall|role: int| !#[trigger] self.can_take(old(available_roles)@, role),
            match r {
                Ok((role, score)) => {
                    &&& self.can_take(old(available_roles)@, role as int)
                    &&& score == self.pref(role as int)
                    &&& final(available_roles)@ == without(old(available_roles)@, role)
                },
                Err(e) => {
                    &&& e == MatchError::RoleUnavailable
                    &&& final(available_roles)@ == old(available_roles)@
                },
            },
    {
        let possible = self.candidate_roles(available_roles);
        if possible.len() == 0 {
            proof {
                assert forall|role: int| !#[trigger] self.can_take(old(available_roles)@, role) by {
                    if self.can_take(old(available_roles)@, role) {
                        assert(possible@.contains(role as usize));
                    }
                }
            }
            return Err(MatchError::RoleUnavailable);
        }
        let index = random_below(possible.len());
        let role = possible[index];
        remove_role(available_roles, role);
        let score = self.preference(role);
        Ok((role, score))
    }
}

/// Whether `pool` holds `role`.
pub fn holds_role(pool: &Vec<usize>, role: usize) -> (r: bool)
    ensures
        r == pool@.contains(role),
{
    let mut i: usize = 0;
    while i < pool.len()
        invariant
            0 <= i <= pool.len(),
            forall|k: int| 0 <= k < i ==> pool[k] != role,
        decreases pool.len() - i,
    {
        if pool[i] == role {
            return true;
        }
        i += 1;
    }
    false
}

/// Takes every occurrence of `role` out of `pool`, keeping the order of the rest.
pub fn remove_role(pool: &mut Vec<usize>, role: usize)
    ensures
        final(pool)@ == without(old(pool)@, role),
{
    let mut kept: Vec<usize> = Vec::new();
    let mut i: usize = 0;
    while i < pool.len()
        invariant
            0 <= i <= pool.len(),
            pool@ == old(pool)@,
            kept@ == without(pool@.subrange(0, i as int), role),
        decreases pool.len() - i,
    {
        proof {
            assert(pool@.subrange(0, i + 1) == pool@.subrange(0, i as int).push(pool@[i as int]));
            pool@.subrange(0, i as int).lemma_filter_push(pool@[i as int], other_than(role));
        }
        if pool[i] != role {
            kept.push(pool[i]);
        }
        i += 1;
    }
    proof {
        assert(pool@.subrange(0, pool.len() as int) == pool@);
    }
    *pool = kept;
}

/// Filtering one role out of a pool without repeats keeps it without repeats,
/// keeps every other role, and shortens it by one exactly when the role was there.
pub proof fn lemma_without(pool: Seq<usize>, role: usize)
    requires
        pool.no_duplicates(),
    ensures
        without(pool, role).no_duplicates(),
        forall|x: usize| #[trigger]
            without(pool, role).contains(x) <==> pool.contains(x) && x != role,
        without(pool, role).len() == if pool.contains(role) {
            pool.len() - 1
        } else {
            pool.len() as int
        },
    decreases pool.len(),
{
    let f = other_than(role);
    if pool.len() == 0 {
        reveal(Seq::filter);
        assert(without(pool, role) == pool);
    } else {
        let rest = pool.drop_last();
        let last = pool.last();
        assert(pool == rest.push(last));
        assert(rest.no_duplicates());
        lemma_without(rest, role);
        rest.lemma_filter_push(last, f);
        assert(!rest.contains(last));
        assert forall|x: usize| pool.contains(x) <==> rest.contains(x) || x == last by {
            if pool.contains(x) {
                let k = choose|k: int| 0 <= k < pool.len() && pool[k] == x;
                if k < rest.len() {
                    assert(rest[k] == x);
                }
            }
            if rest.contains(x) {
                let k = choose|k: int| 0 <= k < rest.len() && rest[k] == x;
                assert(pool[k] == x);
            }
            if x == last {
                assert(pool[pool.len() - 1] == x);
            }
        }
        let w = without(rest, role);
        assert(without(pool, role) == if last != role {
            w.push(last)
        } else {
            w
        });
        if last != role {
            assert(!w.contains(last));
            let wp = w.push(last);
            assert forall|i: int, j: int| 0 <= i < wp.len() && 0 <= j < wp.len() && i != j implies wp[i]
                != wp[j] by {
                if i < w.len() && j < w.len() {
                    assert(w[i] != w[j]);
                } else if i < w.len() {
                    assert(w.contains(wp[i]));
                } else if j < w.len() {
                    assert(w.contains(wp[j]));
                }
            }
            assert forall|x: usize| w.push(last).contains(x) <==> w.contains(x) || x == last by {
                if w.push(last).contains(x) {
                    let k = choose|k: int| 0 <= k < w.len() + 1 && w.push(last)[k] == x;
                    if k < w.len() {
                        assert(w[k] == x);
                    }
                }
                if w.contains(x) {
                    let k = choose|k: int| 0 <= k < w.len() && w[k] == x;
                    assert(w.push(last)[k] == x);
                }
                if x == last {
                    assert(w.push(last)[w.len() as int] == x);
                }
            }
        }
        assert forall|x: usize| #[trigger]
            without(pool, role).contains(x) <==> pool.contains(x) && x != role by {
            assert(w.contains(x) <==> rest.contains(x) && x != role);
        }
    }
}

/// Hands the roster back when it holds exactly ten players.
pub fn check_roster(players: Vec<PlayerDetails>) -> (r: Result<Vec<PlayerDetails>, MatchError>)
    ensures
        r is Ok <==> players.len() == ROSTER_SIZE,
        match r {
            Ok(v) => v@ == players@,
            Err(e) => e == MatchError::RosterSize,
        },
{
    if players.len() == ROSTER_SIZE {
        Ok(players)
    } else {
        Err(MatchError::RosterSize)
    }
}

} // verus!
