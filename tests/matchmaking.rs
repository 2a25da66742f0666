use matchmaker::{
    check_roster, comfort_penalty, generate_scenario, handle_team, has_captain, holds_role,
    remove_role, satisfaction, score_less, try_handle_team, MatchError, PlayerDetails,
    SearchDriver, Team, UNBEATEN,
};

fn player(name: &str, rating: f32, captain: bool, prefs: [usize; 5]) -> PlayerDetails {
    PlayerDetails::new(
        name.to_string(),
        rating.to_bits(),
        captain,
        prefs[0],
        prefs[1],
        prefs[2],
        prefs[3],
        prefs[4],
    )
}

fn open_player(name: &str) -> PlayerDetails {
    player(name, 1000.0, false, [5, 5, 5, 5, 5])
}

/// Five players each willing to take one role only, role `k + 1` for the k-th.
fn fixed_five(prefix: &str, captain_at: Option<usize>, score: usize) -> Vec<PlayerDetails> {
    (0..5)
        .map(|k| {
            let mut prefs = [0usize; 5];
            prefs[k] = score;
            player(&format!("{}{}", prefix, k + 1), 1000.0 + k as f32, captain_at == Some(k), prefs)
        })
        .collect()
}

fn roster() -> Vec<PlayerDetails> {
    (0..10).map(|i| open_player(&format!("p{}", i))).collect()
}

fn sorted_names(team: &Team) -> Vec<String> {
    let mut names: Vec<String> = (1..=5).map(|r| team.assignment(r).name.clone()).collect();
    names.sort();
    names
}

fn assert_valid_team(team: &Team, players: &[PlayerDetails]) {
    for role in 1..=5 {
        let a = team.assignment(role);
        assert_eq!(a.role, role);
        assert!(a.score > 0);
        let p = players.iter().find(|p| p.name == a.name).expect("name from the input");
        assert_eq!(a.score, p.preference(role));
        assert_eq!(a.base_mmr, p.base_mmr);
        assert_eq!(a.captain, p.captain);
    }
    let mut expected: Vec<String> = players.iter().map(|p| p.name.clone()).collect();
    expected.sort();
    assert_eq!(sorted_names(team), expected);
}

#[test]
fn new_keeps_every_field() {
    let p = player("ana", 1500.5, true, [1, 2, 3, 4, 0]);
    assert_eq!(p.name, "ana");
    assert_eq!(f32::from_bits(p.base_mmr), 1500.5);
    assert!(p.captain);
    assert_eq!(p.preference(1), 1);
    assert_eq!(p.preference(4), 4);
    assert_eq!(p.preference(5), 0);
}

#[test]
fn willing_roles_are_the_positive_scores_in_order() {
    let p = player("a", 1.0, false, [5, 0, 3, 0, 1]);
    assert_eq!(p.willing_roles(), vec![1, 3, 5]);
    let none = player("b", 1.0, false, [0, 0, 0, 0, 0]);
    assert!(none.willing_roles().is_empty());
}

#[test]
fn candidate_roles_meet_pool_and_willingness() {
    let p = player("a", 1.0, false, [5, 0, 3, 2, 1]);
    assert_eq!(p.candidate_roles(&vec![4, 2, 1]), vec![1, 4]);
    assert!(p.candidate_roles(&vec![2]).is_empty());
}

#[test]
fn random_role_takes_a_pooled_willing_role() {
    for _ in 0..200 {
        let p = player("a", 1.0, false, [0, 7, 3, 0, 9]);
        let mut pool = vec![1, 2, 3, 4];
        let (role, score) = p.random_role(&mut pool).unwrap();
        assert!(role == 2 || role == 3);
        assert_eq!(score, p.preference(role));
        assert_eq!(pool.len(), 3);
        assert!(!pool.contains(&role));
    }
}

#[test]
fn random_role_with_one_candidate() {
    let p = player("a", 1.0, false, [0, 4, 0, 0, 0]);
    let mut pool = vec![1, 2, 5];
    assert_eq!(p.random_role(&mut pool), Ok((2, 4)));
    assert_eq!(pool, vec![1, 5]);
}

#[test]
fn random_role_fails_without_overlap() {
    let p = player("a", 1.0, false, [5, 0, 0, 0, 0]);
    let mut pool = vec![2, 3];
    assert_eq!(p.random_role(&mut pool), Err(MatchError::RoleUnavailable));
    assert_eq!(pool, vec![2, 3]);
    let mut empty: Vec<usize> = vec![];
    assert_eq!(open_player("b").random_role(&mut empty), Err(MatchError::RoleUnavailable));
}

#[test]
fn random_role_reaches_every_candidate() {
    let p = open_player("a");
    let mut seen = [false; 6];
    for _ in 0..500 {
        let mut pool = vec![1, 2, 3, 4, 5];
        let (role, _) = p.random_role(&mut pool).unwrap();
        seen[role] = true;
    }
    assert!(seen[1..].iter().all(|s| *s));
}

#[test]
fn remove_role_drops_every_copy() {
    let mut pool = vec![1, 2, 1, 3];
    remove_role(&mut pool, 1);
    assert_eq!(pool, vec![2, 3]);
    remove_role(&mut pool, 4);
    assert_eq!(pool, vec![2, 3]);
    assert!(holds_role(&pool, 3));
    assert!(!holds_role(&pool, 1));
}

#[test]
fn willing_players_always_form_a_team() {
    let players: Vec<PlayerDetails> = (0..5).map(|i| open_player(&format!("q{}", i))).collect();
    for _ in 0..100 {
        let team = handle_team(&players).unwrap();
        assert_valid_team(&team, &players);
        let team = try_handle_team(&players).unwrap();
        assert_valid_team(&team, &players);
    }
}

#[test]
fn single_role_player_only_ever_gets_that_role() {
    let mut players = vec![player("A", 1200.0, false, [5, 0, 0, 0, 0])];
    players.extend((0..4).map(|i| open_player(&format!("o{}", i))));
    players.rotate_left(2);
    let mut successes = 0;
    let mut failures = 0;
    for _ in 0..300 {
        match handle_team(&players) {
            Ok(team) => {
                successes += 1;
                assert_eq!(team.assignment(1).name, "A");
                assert_valid_team(&team, &players);
            }
            Err(e) => {
                failures += 1;
                assert_eq!(e, MatchError::RoleUnavailable);
            }
        }
    }
    assert!(successes > 0);
    assert!(failures > 0);
}

#[test]
fn fixed_roles_give_a_fixed_team() {
    let players = fixed_five("f", None, 6);
    let team = handle_team(&players).unwrap();
    for role in 1..=5 {
        assert_eq!(team.assignment(role).name, format!("f{}", role));
        assert_eq!(team.assignment(role).score, 6);
    }
}

#[test]
fn conflicting_players_exhaust_the_attempts() {
    let mut players = vec![
        player("A", 1.0, false, [5, 0, 0, 0, 0]),
        player("B", 1.0, false, [3, 0, 0, 0, 0]),
    ];
    players.extend((0..3).map(|i| open_player(&format!("o{}", i))));
    assert_eq!(handle_team(&players).unwrap_err(), MatchError::RoleUnavailable);
    assert_eq!(try_handle_team(&players).unwrap_err(), MatchError::AssemblyExhausted);
}

#[test]
fn scenario_splits_the_shuffled_roster() {
    let mut players = roster();
    for _ in 0..50 {
        let (one, two) = generate_scenario(&mut players).unwrap();
        assert_eq!(players.len(), 10);
        assert_valid_team(&one, &players[..5]);
        assert_valid_team(&two, &players[5..]);
        let mut all: Vec<String> = sorted_names(&one);
        all.extend(sorted_names(&two));
        all.sort();
        let mut expected: Vec<String> = roster().iter().map(|p| p.name.clone()).collect();
        expected.sort();
        assert_eq!(all, expected);
    }
}

#[test]
fn shuffling_reorders_the_roster() {
    let mut players = roster();
    let start: Vec<String> = players.iter().map(|p| p.name.clone()).collect();
    let mut moved = false;
    for _ in 0..20 {
        generate_scenario(&mut players).unwrap();
        let now: Vec<String> = players.iter().map(|p| p.name.clone()).collect();
        moved |= now != start;
    }
    assert!(moved);
}

#[test]
fn scenario_fails_when_a_half_cannot_be_assembled() {
    let mut players: Vec<PlayerDetails> =
        (0..10).map(|i| player(&format!("m{}", i), 1.0, false, [5, 0, 0, 0, 0])).collect();
    assert_eq!(generate_scenario(&mut players).unwrap_err(), MatchError::AssemblyExhausted);
}

#[test]
fn satisfaction_sums_distance_from_full_comfort() {
    let comfortable = handle_team(&fixed_five("c", Some(0), 10)).unwrap();
    assert_eq!(satisfaction(&comfortable), 0);
    let lukewarm = handle_team(&fixed_five("l", Some(0), 7)).unwrap();
    assert_eq!(satisfaction(&lukewarm), 15);
    let eager = handle_team(&fixed_five("e", Some(0), 12)).unwrap();
    assert_eq!(satisfaction(&eager), -10);
}

#[test]
fn captain_is_found_in_any_role() {
    for k in 0..5 {
        let team = handle_team(&fixed_five("k", Some(k), 5)).unwrap();
        assert!(has_captain(&team));
    }
    let team = handle_team(&fixed_five("k", None, 5)).unwrap();
    assert!(!has_captain(&team));
}

#[test]
fn missing_captain_costs_three() {
    let other = handle_team(&fixed_five("o", Some(2), 8)).unwrap();
    let with_captain = handle_team(&fixed_five("t", Some(3), 8)).unwrap();
    let without_captain = handle_team(&fixed_five("t", None, 8)).unwrap();
    let a = comfort_penalty(&with_captain, &other);
    let b = comfort_penalty(&without_captain, &other);
    assert_eq!(a, 20);
    assert_eq!(b - a, 3);
    assert_eq!(comfort_penalty(&without_captain, &without_captain), 26);
}

#[test]
fn set_rating_replaces_one_rating() {
    let mut team = handle_team(&fixed_five("r", None, 8)).unwrap();
    team.set_rating(2, 950.0f32.to_bits());
    assert_eq!(f32::from_bits(team.assignment(2).base_mmr), 950.0);
    assert_eq!(team.assignment(2).name, "r2");
    assert_eq!(f32::from_bits(team.assignment(3).base_mmr), 1002.0);
}

#[test]
fn score_less_orders_like_floats() {
    let cases: [(f32, f32); 10] = [
        (1.0, 2.0),
        (2.0, 1.0),
        (-1.0, 1.0),
        (1.0, -1.0),
        (-2.0, -1.0),
        (-1.0, -2.0),
        (-0.0, 0.0),
        (0.0, -0.0),
        (3.5, f32::INFINITY),
        (f32::NEG_INFINITY, -3.5),
    ];
    for (a, b) in cases {
        assert_eq!(score_less(a.to_bits(), b.to_bits()), a < b, "{} < {}", a, b);
    }
    assert!(!score_less(f32::INFINITY.to_bits(), UNBEATEN));
    assert!(!score_less(f32::NAN.to_bits(), 1.0f32.to_bits()));
    assert!(!score_less(1.0f32.to_bits(), f32::NAN.to_bits()));
    assert!(!score_less((-f32::NAN).to_bits(), UNBEATEN));
}

#[test]
fn zero_trials_leave_an_empty_archive() {
    let search = SearchDriver::new(0);
    assert!(search.is_finished());
    assert!(search.into_solutions().is_empty());
}

#[test]
fn archive_keeps_only_strict_improvements() {
    let teams = || {
        (
            handle_team(&fixed_five("a", None, 5)).unwrap(),
            handle_team(&fixed_five("b", None, 5)).unwrap(),
        )
    };
    let mut search = SearchDriver::new(7);
    assert_eq!(search.best_score(), UNBEATEN);
    for score in [5.0f32, 7.0, 3.0, 3.0] {
        let (one, two) = teams();
        search.record_trial(Ok((score.to_bits(), one, two)));
    }
    search.record_trial(Err(MatchError::AssemblyExhausted));
    let (one, two) = teams();
    search.record_trial(Ok((f32::NAN.to_bits(), one, two)));
    let (one, two) = teams();
    search.record_trial(Ok((1.0f32.to_bits(), one, two)));
    assert!(search.is_finished());
    assert_eq!(f32::from_bits(search.best_score()), 1.0);
    let scores: Vec<f32> = search.into_solutions().iter().map(|s| f32::from_bits(s.score)).collect();
    assert_eq!(scores, vec![1.0, 3.0, 5.0]);
}

#[test]
fn independent_searches_both_keep_the_archive_ordered() {
    for _ in 0..2 {
        let mut players = roster();
        let mut search = SearchDriver::new(60);
        while !search.is_finished() {
            let outcome = generate_scenario(&mut players).map(|(one, two)| {
                let score = comfort_penalty(&one, &two) as f32 + search.trials_left() as f32;
                (score.to_bits(), one, two)
            });
            search.record_trial(outcome);
        }
        let solutions = search.into_solutions();
        assert!(!solutions.is_empty());
        for pair in solutions.windows(2) {
            assert!(f32::from_bits(pair[0].score) < f32::from_bits(pair[1].score));
        }
        for s in &solutions {
            assert_eq!(s.team_one.assignment(1).role, 1);
            assert_eq!(s.team_two.assignment(5).role, 5);
        }
    }
}

#[test]
fn roster_must_hold_ten_players() {
    assert_eq!(check_roster(roster()).unwrap().len(), 10);
    let mut short = roster();
    short.pop();
    assert_eq!(check_roster(short).unwrap_err(), MatchError::RosterSize);
    let mut long = roster();
    long.push(open_player("extra"));
    assert_eq!(check_roster(long).unwrap_err(), MatchError::RosterSize);
}
