use swimbot::engine::{
    compute_grants, compute_revokes, guild_present, plan_leaderboard, run_cycle, CycleOutcome,
    LeaderboardInput, LeaderboardObservation, MessageAction, RankEntry, Stage,
};

fn entry(identity: i64, score: i64) -> RankEntry {
    RankEntry { identity, score }
}

fn observation(
    entries: Vec<RankEntry>,
    labels: Vec<Option<String>>,
    holders: Vec<i64>,
    has_prior_message: bool,
) -> LeaderboardObservation {
    LeaderboardObservation { entries, labels, holders, has_prior_message }
}

#[test]
fn grant_new_leader_revoke_departed() {
    // Ranked: u1 (500), u2 (300); holders: u2, u3.
    let entries = vec![entry(1, 500), entry(2, 300)];
    let labels = vec![Some("u1".to_string()), Some("u2".to_string())];
    let holders = vec![2, 3];
    let grants = compute_grants(&entries, &labels, &holders);
    let revokes = compute_revokes(&entries, &labels, &holders);
    assert_eq!(grants, vec![1]);
    assert_eq!(revokes, vec![3]);
}

#[test]
fn empty_ranking_revokes_all() {
    let entries: Vec<RankEntry> = Vec::new();
    let labels: Vec<Option<String>> = Vec::new();
    let holders = vec![2];
    let grants = compute_grants(&entries, &labels, &holders);
    let revokes = compute_revokes(&entries, &labels, &holders);
    assert!(grants.is_empty());
    assert_eq!(revokes, vec![2]);
}

#[test]
fn unresolved_entry_gets_no_role_logic() {
    // Resolution fails for rank 1; rank 2 still proceeds.
    let entries = vec![entry(1, 500), entry(2, 300)];
    let labels = vec![None, Some("u2".to_string())];
    let holders: Vec<i64> = Vec::new();
    let grants = compute_grants(&entries, &labels, &holders);
    assert_eq!(grants, vec![2]);
}

#[test]
fn unresolved_holder_is_revoked() {
    // A holder whose entry failed to resolve is not counted as ranked.
    let entries = vec![entry(5, 100)];
    let labels = vec![None];
    let holders = vec![5];
    let revokes = compute_revokes(&entries, &labels, &holders);
    assert_eq!(revokes, vec![5]);
}

#[test]
fn duplicate_identities_granted_once() {
    let entries = vec![entry(7, 900), entry(7, 800)];
    let labels = vec![Some("u7".to_string()), Some("u7".to_string())];
    let holders: Vec<i64> = Vec::new();
    let grants = compute_grants(&entries, &labels, &holders);
    assert_eq!(grants, vec![7]);
}

#[test]
fn second_pass_is_idempotent() {
    // After applying the first pass's grants and revokes, a second pass over
    // the same stores grants and revokes nothing.
    let entries = vec![entry(1, 500), entry(2, 300)];
    let labels = vec![Some("u1".to_string()), Some("u2".to_string())];
    let holders = vec![2, 3];
    let grants = compute_grants(&entries, &labels, &holders);
    let revokes = compute_revokes(&entries, &labels, &holders);
    let mut converged: Vec<i64> = holders
        .iter()
        .chain(grants.iter())
        .copied()
        .filter(|id| !revokes.contains(id))
        .collect();
    converged.sort();
    converged.dedup();
    let grants2 = compute_grants(&entries, &labels, &converged);
    let revokes2 = compute_revokes(&entries, &labels, &converged);
    assert!(grants2.is_empty());
    assert!(revokes2.is_empty());
}

#[test]
fn convergence_ignores_prior_holders() {
    // Whatever the prior holder set, holders after the pass are exactly the
    // resolvable ranked identities.
    let entries = vec![entry(1, 50), entry(2, 40), entry(3, 30)];
    let labels = vec![Some("a".to_string()), None, Some("c".to_string())];
    for holders in [vec![], vec![1, 2, 3], vec![9, 8], vec![3, 9]] {
        let grants = compute_grants(&entries, &labels, &holders);
        let revokes = compute_revokes(&entries, &labels, &holders);
        let mut after: Vec<i64> = holders
            .iter()
            .chain(grants.iter())
            .copied()
            .filter(|id| !revokes.contains(id))
            .collect();
        after.sort();
        after.dedup();
        assert_eq!(after, vec![1, 3]);
    }
}

#[test]
fn plan_renders_unknown_for_unresolved() {
    let obs = observation(
        vec![entry(1, 500), entry(2, 300)],
        vec![None, Some("u2".to_string())],
        vec![],
        false,
    );
    let res = plan_leaderboard(&obs);
    assert_eq!(res.rendered_text, "1. Unknown: 500\n2. u2: 300");
    assert_eq!(res.roles_granted, vec![2]);
    assert_eq!(res.errors.len(), 1);
    assert!(matches!(res.errors[0].stage, Stage::MemberResolutionFailure));
    assert_eq!(res.errors[0].identity, Some(1));
}

#[test]
fn plan_full_scenario() {
    // Ranked [(u1,500),(u2,300)], holders {u2,u3}: grant u1, revoke u3,
    // u2 keeps the role, text lists both ranks.
    let obs = observation(
        vec![entry(1, 500), entry(2, 300)],
        vec![Some("u1".to_string()), Some("u2".to_string())],
        vec![2, 3],
        false,
    );
    let res = plan_leaderboard(&obs);
    assert_eq!(res.rendered_text, "1. u1: 500\n2. u2: 300");
    assert_eq!(res.roles_granted, vec![1]);
    assert_eq!(res.roles_revoked, vec![3]);
    assert!(res.errors.is_empty());
    assert!(matches!(res.action, MessageAction::Create));
}

#[test]
fn plan_empty_ranking() {
    let obs = observation(Vec::new(), Vec::new(), vec![2], true);
    let res = plan_leaderboard(&obs);
    assert_eq!(res.rendered_text, "");
    assert!(res.roles_granted.is_empty());
    assert_eq!(res.roles_revoked, vec![2]);
    assert!(matches!(res.action, MessageAction::Edit));
}

#[test]
fn message_created_only_without_prior() {
    let fresh = plan_leaderboard(&observation(Vec::new(), Vec::new(), Vec::new(), false));
    assert!(matches!(fresh.action, MessageAction::Create));
    let existing = plan_leaderboard(&observation(Vec::new(), Vec::new(), Vec::new(), true));
    assert!(matches!(existing.action, MessageAction::Edit));
}

#[test]
fn failing_leaderboard_leaves_others_whole() {
    // Leaderboard A's query fails; leaderboard B still completes fully.
    let inputs = vec![
        LeaderboardInput::QueryFailed,
        LeaderboardInput::Ready(observation(
            vec![entry(4, 1000)],
            vec![Some("u4".to_string())],
            vec![],
            false,
        )),
    ];
    let outs = run_cycle(&inputs);
    assert_eq!(outs.len(), 2);
    assert!(matches!(outs[0], CycleOutcome::Skipped(Stage::QueryFailure)));
    match &outs[1] {
        CycleOutcome::Completed(res) => {
            assert_eq!(res.rendered_text, "1. u4: 1000");
            assert_eq!(res.roles_granted, vec![4]);
            assert!(res.roles_revoked.is_empty());
        }
        CycleOutcome::Skipped(_) => panic!("ready leaderboard was skipped"),
    }
}

#[test]
fn channel_failure_skips_with_its_stage() {
    let inputs = vec![LeaderboardInput::ChannelFailed];
    let outs = run_cycle(&inputs);
    assert_eq!(outs.len(), 1);
    assert!(matches!(outs[0], CycleOutcome::Skipped(Stage::ChannelResolutionFailure)));
}

#[test]
fn guild_present_finds_guild() {
    assert!(guild_present(&vec![3, 14, 15], 14));
    assert!(!guild_present(&vec![3, 14, 15], 9));
    assert!(!guild_present(&Vec::new(), 9));
}
