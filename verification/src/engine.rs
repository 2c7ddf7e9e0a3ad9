//! The reconciliation engine: one pass over the registered leaderboards.
//!
//! For each leaderboard the engine receives, as plain values, what the
//! score store and the community directory answered this cycle — the ranked
//! entries, the resolution outcome for each entry, the snapshot of current
//! role holders, and whether the destination channel already holds a
//! message — and decides everything that must happen: the display text, the
//! role grants, the role revokes, and whether to create or edit the
//! message.  Failures of one leaderboard's queries never touch another's
//! outcome.

use vstd::prelude::*;
use vstd::seq_lib::lemma_seq_contains_after_push;
use crate::render::{render, spec_render, view_items};

verus! {

proof fn lemma_push_keeps_no_duplicates(s: Seq<i64>, x: i64)
    requires
        s.no_duplicates(),
        !s.contains(x),
    ensures
        s.push(x).no_duplicates(),
{
    assert forall|p: int, q: int|
        0 <= p < s.push(x).len() && 0 <= q < s.push(x).len() && p != q implies s.push(x)[p]
        != s.push(x)[q] by {
        if p < s.len() && q < s.len() {
            assert(s.push(x)[p] == s[p] && s.push(x)[q] == s[q]);
        } else if p == s.len() {
            assert(s.push(x)[q] == s[q]);
            assert(s.contains(s[q]));
        } else {
            assert(s.push(x)[p] == s[p]);
            assert(s.contains(s[p]));
        }
    }
}

/// One entry of a ranked list: an external identity and its score, the
/// rank being the entry's 1-based position in the list.
#[derive(Clone, Copy, Debug, PartialEq, Eq, Structural)]
pub struct RankEntry {
    pub identity: i64,
    pub score: i64,
}

/// The stage of a cycle at which a failure was observed.
#[derive(Clone, Copy, Debug, PartialEq, Eq, Structural)]
pub enum Stage {
    QueryFailure,
    MemberResolutionFailure,
    RoleGrantFailure,
    RoleRevokeFailure,
    ChannelResolutionFailure,
    MessageFailure,
}

/// One recorded failure: the stage it happened at and, where one entry was
/// concerned, the identity involved.
#[derive(Clone, Copy, Debug, PartialEq, Eq, Structural)]
pub struct StageError {
    pub stage: Stage,
    pub identity: Option<i64>,
}

/// What to do with the leaderboard's message this cycle.
#[derive(Clone, Copy, Debug, PartialEq, Eq, Structural)]
pub enum MessageAction {
    Create,
    Edit,
}

/// Everything the outside world answered for one leaderboard this cycle.
#[derive(Debug)]
pub struct LeaderboardObservation {
    /// The ranked list, best first, fresh from the score store.
    pub entries: Vec<RankEntry>,
    /// Per entry, the display name the directory resolved, or `None` where
    /// resolution failed.
    pub labels: Vec<Option<String>>,
    /// The identities currently holding the leaderboard's role.
    pub holders: Vec<i64>,
    /// Whether the destination channel already holds a message.
    pub has_prior_message: bool,
}

/// One leaderboard's observation, or the stage at which observing it
/// already failed.
#[derive(Debug)]
pub enum LeaderboardInput {
    /// The ranking (or role) query failed; this leaderboard is skipped.
    QueryFailed,
    /// The destination channel could not be resolved; skipped as well.
    ChannelFailed,
    /// Everything needed was observed.
    Ready(LeaderboardObservation),
}

/// What one leaderboard's pass decided, kept for observability.
#[derive(Debug)]
pub struct ReconciliationResult {
    /// The rendered rank display.
    pub rendered_text: String,
    /// The identities to grant the role to: resolved, ranked, not yet holding.
    pub roles_granted: Vec<i64>,
    /// The holders to revoke the role from: no longer ranked-and-resolved.
    pub roles_revoked: Vec<i64>,
    /// The failures recorded while planning (one per unresolved entry).
    pub errors: Vec<StageError>,
    /// Whether to create a new message or edit the existing one.
    pub action: MessageAction,
}

/// The outcome of one leaderboard within a cycle.
#[derive(Debug)]
pub enum CycleOutcome {
    /// Observation already failed at this stage; nothing was planned.
    Skipped(Stage),
    /// A full plan was made.
    Completed(ReconciliationResult),
}

/// The identities that are both ranked and resolved this cycle: these and
/// only these are to hold the role after the pass.
pub open spec fn resolved_id_set(entries: Seq<RankEntry>, labels: Seq<Option<String>>) -> Set<
    i64,
> {
    Set::new(
        |id: i64|
            exists|i: int|
                0 <= i < entries.len() && #[trigger] entries[i].identity == id && labels[i]
                    is Some,
    )
}

/// The identities to grant the role to: ranked and resolved but not yet
/// holding.
pub open spec fn grant_set(
    entries: Seq<RankEntry>,
    labels: Seq<Option<String>>,
    holders: Set<i64>,
) -> Set<i64> {
    resolved_id_set(entries, labels).difference(holders)
}

/// The holders to revoke the role from: holding but not ranked-and-resolved.
pub open spec fn revoke_set(
    entries: Seq<RankEntry>,
    labels: Seq<Option<String>>,
    holders: Set<i64>,
) -> Set<i64> {
    holders.difference(resolved_id_set(entries, labels))
}

/// The display items of a ranked list: the resolved name, or "Unknown"
/// where resolution failed, with the entry's score.
pub open spec fn display_items(entries: Seq<RankEntry>, labels: Seq<Option<String>>) -> Seq<
    (Seq<char>, int),
> {
    Seq::new(
        entries.len(),
        |i: int|
            (
                if labels[i] is Some {
                    labels[i]->0@
                } else {
                    "Unknown"@
                },
                entries[i].score as int,
            ),
    )
}

/// The recorded resolution failures of a ranked list, in rank order.
pub open spec fn resolution_errors(entries: Seq<RankEntry>, labels: Seq<Option<String>>) -> Seq<
    StageError,
>
    decreases entries.len(),
{
    if entries.len() == 0 {
        Seq::empty()
    } else {
        (if labels[0] is None {
            seq![
                StageError {
                    stage: Stage::MemberResolutionFailure,
                    identity: Some(entries[0].identity),
                },
            ]
        } else {
            Seq::empty()
        }) + resolution_errors(entries.drop_first(), labels.drop_first())
    }
}

/// Whether `res` is the one correct plan for the observation `obs`.
pub open spec fn plan_matches(obs: LeaderboardObservation, res: ReconciliationResult) -> bool {
    &&& res.rendered_text@ == spec_render(display_items(obs.entries@, obs.labels@))
    &&& res.roles_granted@.to_set() == grant_set(obs.entries@, obs.labels@, obs.holders@.to_set())
    &&& res.roles_granted@.no_duplicates()
    &&& res.roles_revoked@.to_set() == revoke_set(obs.entries@, obs.labels@, obs.holders@.to_set())
    &&& res.roles_revoked@.no_duplicates()
    &&& res.errors@ == resolution_errors(obs.entries@, obs.labels@)
    &&& res.action == (if obs.has_prior_message {
        MessageAction::Edit
    } else {
        MessageAction::Create
    })
}

/// Whether `out` is the one correct outcome for the input `inp`.
pub open spec fn outcome_matches(inp: LeaderboardInput, out: CycleOutcome) -> bool {
    match inp {
        LeaderboardInput::QueryFailed => out == CycleOutcome::Skipped(Stage::QueryFailure),
        LeaderboardInput::ChannelFailed => out == CycleOutcome::Skipped(
            Stage::ChannelResolutionFailure,
        ),
        LeaderboardInput::Ready(obs) => match out {
            CycleOutcome::Completed(res) => plan_matches(obs, res),
            CycleOutcome::Skipped(_) => false,
        },
    }
}

/// An observation is well formed when it answers resolution for exactly
/// the ranked entries.
pub open spec fn observation_wf(obs: LeaderboardObservation) -> bool {
    obs.labels@.len() == obs.entries@.len()
}

/// A per-leaderboard input is well formed when its observation, if any, is.
pub open spec fn input_wf(inp: LeaderboardInput) -> bool {
    match inp {
        LeaderboardInput::Ready(obs) => observation_wf(obs),
        _ => true,
    }
}

/// Whether `ids` holds `id`.
fn contains_id(ids: &Vec<i64>, id: i64) -> (b: bool)
    ensures
        b == ids@.contains(id),
{
    let mut i: usize = 0;
    while i < ids.len()
        invariant
            i <= ids@.len(),
            forall|j: int| 0 <= j < i ==> ids@[j] != id,
        decreases ids@.len() - i,
    {
        if ids[i] == id {
            return true;
        }
        i = i + 1;
    }
    false
}

/// Whether `id` is among the resolved identities of the ranked list.
fn is_resolved_id(entries: &Vec<RankEntry>, labels: &Vec<Option<String>>, id: i64) -> (b: bool)
    requires
        labels@.len() == entries@.len(),
    ensures
        b == resolved_id_set(entries@, labels@).contains(id),
{
    let mut i: usize = 0;
    while i < entries.len()
        invariant
            labels@.len() == entries@.len(),
            i <= entries@.len(),
            forall|j: int|
                0 <= j < i ==> !(#[trigger] entries@[j].identity == id && labels@[j] is Some),
        decreases entries@.len() - i,
    {
        if entries[i].identity == id && labels[i].is_some() {
            return true;
        }
        i = i + 1;
    }
    false
}

/// Computes the grants of one pass: the identities that are ranked and
/// resolved but do not hold the role yet, each once.
pub fn compute_grants(
    entries: &Vec<RankEntry>,
    labels: &Vec<Option<String>>,
    holders: &Vec<i64>,
) -> (grants: Vec<i64>)
    requires
        labels@.len() == entries@.len(),
    ensures
        grants@.to_set() == grant_set(entries@, labels@, holders@.to_set()),
        grants@.no_duplicates(),
{
    let mut grants: Vec<i64> = Vec::new();
    let mut i: usize = 0;
    while i < entries.len()
        invariant
            labels@.len() == entries@.len(),
            i <= entries@.len(),
            grants@.no_duplicates(),
            forall|id: i64|
                grants@.contains(id) <==> ((exists|j: int|
                    0 <= j < i && #[trigger] entries@[j].identity == id && labels@[j] is Some)
                    && !holders@.contains(id)),
        decreases entries@.len() - i,
    {
        let id = entries[i].identity;
        let resolved = labels[i].is_some();
        let is_holder = contains_id(holders, id);
        let already = resolved && !is_holder && contains_id(&grants, id);
        let ghost old_grants = grants@;
        if resolved && !is_holder && !already {
            grants.push(id);
            proof {
                lemma_push_keeps_no_duplicates(old_grants, id);
            }
        }
        proof {
            assert forall|y: i64| grants@.contains(y) <==> ((exists|j: int|
                0 <= j < i + 1 && #[trigger] entries@[j].identity == y && labels@[j] is Some)
                && !holders@.contains(y)) by {
                if resolved && !is_holder && !already {
                    lemma_seq_contains_after_push(old_grants, id, y);
                }
                if grants@.contains(y) {
                    if old_grants.contains(y) {
                        let j = choose|j: int|
                            0 <= j < i && #[trigger] entries@[j].identity == y && labels@[j]
                                is Some;
                        assert(0 <= j < i + 1 && entries@[j].identity == y && labels@[j] is Some);
                    } else {
                        assert(y == id);
                        assert(entries@[i as int].identity == y && labels@[i as int] is Some);
                    }
                }
                if (exists|j: int|
                    0 <= j < i + 1 && #[trigger] entries@[j].identity == y && labels@[j] is Some)
                    && !holders@.contains(y) {
                    let j = choose|j: int|
                        0 <= j < i + 1 && #[trigger] entries@[j].identity == y && labels@[j]
                            is Some;
                    if j < i {
                        assert(old_grants.contains(y));
                        if resolved && !is_holder && !already {
                            assert(grants@.contains(y));
                        }
                    } else {
                        assert(y == id && resolved && !is_holder);
                        if already {
                            assert(old_grants.contains(y));
                        } else {
                            assert(grants@[grants@.len() - 1] == id);
                        }
                    }
                }
            }
        }
        i = i + 1;
    }
    proof {
        assert(grants@.to_set() =~= grant_set(entries@, labels@, holders@.to_set()));
    }
    grants
}

/// Computes the revokes of one pass: the holders that are no longer ranked
/// and resolved, each once.
pub fn compute_revokes(
    entries: &Vec<RankEntry>,
    labels: &Vec<Option<String>>,
    holders: &Vec<i64>,
) -> (revokes: Vec<i64>)
    requires
        labels@.len() == entries@.len(),
    ensures
        revokes@.to_set() == revoke_set(entries@, labels@, holders@.to_set()),
        revokes@.no_duplicates(),
{
    let mut revokes: Vec<i64> = Vec::new();
    let mut i: usize = 0;
    while i < holders.len()
        invariant
            labels@.len() == entries@.len(),
            i <= holders@.len(),
            revokes@.no_duplicates(),
            forall|id: i64|
                revokes@.contains(id) <==> ((exists|j: int|
                    0 <= j < i && #[trigger] holders@[j] == id) && !resolved_id_set(
                    entries@,
                    labels@,
                ).contains(id)),
        decreases holders@.len() - i,
    {
        let id = holders[i];
        let resolved = is_resolved_id(entries, labels, id);
        let already = !resolved && contains_id(&revokes, id);
        let ghost old_revokes = revokes@;
        if !resolved && !already {
            revokes.push(id);
            proof {
                lemma_push_keeps_no_duplicates(old_revokes, id);
            }
        }
        proof {
            assert forall|y: i64| revokes@.contains(y) <==> ((exists|j: int|
                0 <= j < i + 1 && #[trigger] holders@[j] == y) && !resolved_id_set(
                entries@,
                labels@,
            ).contains(y)) by {
                if !resolved && !already {
                    lemma_seq_contains_after_push(old_revokes, id, y);
                }
                if revokes@.contains(y) {
                    if old_revokes.contains(y) {
                        let j = choose|j: int| 0 <= j < i && #[trigger] holders@[j] == y;
                        assert(0 <= j < i + 1 && holders@[j] == y);
                    } else {
                        assert(y == id);
                        assert(holders@[i as int] == y);
                    }
                }
                if (exists|j: int| 0 <= j < i + 1 && #[trigger] holders@[j] == y)
                    && !resolved_id_set(entries@, labels@).contains(y) {
                    let j = choose|j: int| 0 <= j < i + 1 && #[trigger] holders@[j] == y;
                    if j < i {
                        assert(old_revokes.contains(y));
                        if !resolved && !already {
                            assert(revokes@.contains(y));
                        }
                    } else {
                        assert(y == id && !resolved);
                        if already {
                            assert(old_revokes.contains(y));
                        } else {
                            assert(revokes@[revokes@.len() - 1] == id);
                        }
                    }
                }
            }
        }
        i = i + 1;
    }
    proof {
        assert(revokes@.to_set() =~= revoke_set(entries@, labels@, holders@.to_set()));
    }
    revokes
}

proof fn lemma_resolution_errors_snoc(
    entries: Seq<RankEntry>,
    labels: Seq<Option<String>>,
    e: RankEntry,
    l: Option<String>,
)
    requires
        labels.len() == entries.len(),
    ensures
        resolution_errors(entries.push(e), labels.push(l)) == resolution_errors(entries, labels)
            + (if l is None {
            seq![StageError { stage: Stage::MemberResolutionFailure, identity: Some(e.identity) }]
        } else {
            Seq::<StageError>::empty()
        }),
    decreases entries.len(),
{
    let es = entries.push(e);
    let ls = labels.push(l);
    if entries.len() == 0 {
        assert(es[0] == e && ls[0] == l);
        assert(es.drop_first() =~= Seq::<RankEntry>::empty());
        assert(ls.drop_first() =~= Seq::<Option<String>>::empty());
        assert(resolution_errors(es.drop_first(), ls.drop_first()) =~= Seq::<StageError>::empty());
        assert(resolution_errors(entries, labels) =~= Seq::<StageError>::empty());
        assert(resolution_errors(es, ls) =~= resolution_errors(entries, labels) + (if l is None {
            seq![
                StageError { stage: Stage::MemberResolutionFailure, identity: Some(e.identity) },
            ]
        } else {
            Seq::<StageError>::empty()
        }));
    } else {
        assert(es[0] == entries[0] && ls[0] == labels[0]);
        assert(es.drop_first() =~= entries.drop_first().push(e));
        assert(ls.drop_first() =~= labels.drop_first().push(l));
        lemma_resolution_errors_snoc(entries.drop_first(), labels.drop_first(), e, l);
        assert(resolution_errors(es, ls) =~= resolution_errors(entries, labels) + (if l is None {
            seq![
                StageError { stage: Stage::MemberResolutionFailure, identity: Some(e.identity) },
            ]
        } else {
            Seq::<StageError>::empty()
        }));
    }
}

/// Builds the display items and the recorded resolution failures of a
/// ranked list: the resolved name or "Unknown" per entry, and one
/// member-resolution failure per unresolved entry, in rank order.
fn build_display(entries: &Vec<RankEntry>, labels: &Vec<Option<String>>) -> (r: (
    Vec<(String, i64)>,
    Vec<StageError>,
))
    requires
        labels@.len() == entries@.len(),
    ensures
        view_items(r.0@) == display_items(entries@, labels@),
        r.1@ == resolution_errors(entries@, labels@),
{
    let mut display: Vec<(String, i64)> = Vec::new();
    let mut errors: Vec<StageError> = Vec::new();
    let mut i: usize = 0;
    while i < entries.len()
        invariant
            labels@.len() == entries@.len(),
            i <= entries@.len(),
            display@.len() == i as int,
            view_items(display@) == display_items(entries@.take(i as int), labels@.take(i as int)),
            errors@ == resolution_errors(entries@.take(i as int), labels@.take(i as int)),
        decreases entries@.len() - i,
    {
        let score = entries[i].score;
        let ghost old_display = display@;
        match &labels[i] {
            Some(name) => {
                display.push((name.clone(), score));
            },
            None => {
                display.push((String::from_str("Unknown"), score));
                errors.push(
                    StageError {
                        stage: Stage::MemberResolutionFailure,
                        identity: Some(entries[i].identity),
                    },
                );
            },
        }
        proof {
            lemma_resolution_errors_snoc(
                entries@.take(i as int),
                labels@.take(i as int),
                entries@[i as int],
                labels@[i as int],
            );
            assert(entries@.take(i as int).push(entries@[i as int]) =~= entries@.take(i + 1));
            assert(labels@.take(i as int).push(labels@[i as int]) =~= labels@.take(i + 1));
            assert(errors@ =~= resolution_errors(entries@.take(i + 1), labels@.take(i + 1)));
            let d1 = view_items(display@);
            let d2 = display_items(entries@.take(i + 1), labels@.take(i + 1));
            assert forall|k: int| 0 <= k < d1.len() implies d1[k] == d2[k] by {
                if k < i {
                    assert(display@[k] == old_display[k]);
                    assert(view_items(old_display)[k] == display_items(
                        entries@.take(i as int),
                        labels@.take(i as int),
                    )[k]);
                } else {
                    assert(display@[k] == display@[display@.len() - 1]);
                    assert(entries@.take(i + 1)[k] == entries@[i as int]);
                    assert(labels@.take(i + 1)[k] == labels@[i as int]);
                }
            }
            assert(d1 =~= d2);
        }
        i = i + 1;
    }
    proof {
        assert(entries@.take(entries@.len() as int) =~= entries@);
        assert(labels@.take(entries@.len() as int) =~= labels@);
    }
    (display, errors)
}

/// Plans one leaderboard's pass from what was observed: the display text,
/// the grants, the revokes, the recorded resolution failures, and the
/// message action (edit the prior message where one exists, else create).
pub fn plan_leaderboard(obs: &LeaderboardObservation) -> (res: ReconciliationResult)
    requires
        observation_wf(*obs),
    ensures
        plan_matches(*obs, res),
{
    let (display, errors) = build_display(&obs.entries, &obs.labels);
    let rendered_text = render(&display);
    let roles_granted = compute_grants(&obs.entries, &obs.labels, &obs.holders);
    let roles_revoked = compute_revokes(&obs.entries, &obs.labels, &obs.holders);
    let action = if obs.has_prior_message {
        MessageAction::Edit
    } else {
        MessageAction::Create
    };
    ReconciliationResult { rendered_text, roles_granted, roles_revoked, errors, action }
}

/// Runs one full cycle: every leaderboard gets its own outcome, computed
/// from its own input alone, so one leaderboard's failure never touches
/// another's plan.
pub fn run_cycle(inputs: &Vec<LeaderboardInput>) -> (outs: Vec<CycleOutcome>)
    requires
        forall|i: int| 0 <= i < inputs@.len() ==> input_wf(#[trigger] inputs@[i]),
    ensures
        outs@.len() == inputs@.len(),
        forall|i: int|
            0 <= i < inputs@.len() ==> outcome_matches(inputs@[i], #[trigger] outs@[i]),
{
    let mut outs: Vec<CycleOutcome> = Vec::new();
    let mut i: usize = 0;
    while i < inputs.len()
        invariant
            forall|k: int| 0 <= k < inputs@.len() ==> input_wf(#[trigger] inputs@[k]),
            i <= inputs@.len(),
            outs@.len() == i,
            forall|k: int| 0 <= k < i ==> outcome_matches(inputs@[k], #[trigger] outs@[k]),
        decreases inputs@.len() - i,
    {
        let out = match &inputs[i] {
            LeaderboardInput::QueryFailed => CycleOutcome::Skipped(Stage::QueryFailure),
            LeaderboardInput::ChannelFailed => CycleOutcome::Skipped(
                Stage::ChannelResolutionFailure,
            ),
            LeaderboardInput::Ready(obs) => CycleOutcome::Completed(plan_leaderboard(obs)),
        };
        outs.push(out);
        i = i + 1;
    }
    outs
}

/// Law: after one pass the role-holder set is exactly the ranked-and-
/// resolved identities, whatever it held before: applying the grants and
/// then the revokes to the prior holders yields that set.
pub proof fn lemma_cycle_convergence(
    entries: Seq<RankEntry>,
    labels: Seq<Option<String>>,
    holders: Set<i64>,
)
    ensures
        holders.union(grant_set(entries, labels, holders)).difference(
            revoke_set(entries, labels, holders),
        ) == resolved_id_set(entries, labels),
{
    assert(holders.union(grant_set(entries, labels, holders)).difference(
        revoke_set(entries, labels, holders),
    ) =~= resolved_id_set(entries, labels));
}

/// Law: a pass is idempotent: once the holder set has converged, a second
/// pass over unchanged stores grants nothing and revokes nothing.
pub proof fn lemma_cycle_idempotent(
    entries: Seq<RankEntry>,
    labels: Seq<Option<String>>,
    holders: Set<i64>,
)
    ensures
        ({
            let converged = holders.union(grant_set(entries, labels, holders)).difference(
                revoke_set(entries, labels, holders),
            );
            grant_set(entries, labels, converged).is_empty() && revoke_set(
                entries,
                labels,
                converged,
            ).is_empty()
        }),
{
    lemma_cycle_convergence(entries, labels, holders);
    let converged = holders.union(grant_set(entries, labels, holders)).difference(
        revoke_set(entries, labels, holders),
    );
    assert(grant_set(entries, labels, converged) =~= Set::<i64>::empty());
    assert(revoke_set(entries, labels, converged) =~= Set::<i64>::empty());
}

/// Law: the planned grants and revokes converge the holder set: granting
/// and then revoking as a leaderboard's plan says leaves exactly the
/// ranked-and-resolved identities holding the role.
pub proof fn lemma_plan_converges(obs: LeaderboardObservation, res: ReconciliationResult)
    requires
        plan_matches(obs, res),
    ensures
        obs.holders@.to_set().union(res.roles_granted@.to_set()).difference(
            res.roles_revoked@.to_set(),
        ) == resolved_id_set(obs.entries@, obs.labels@),
{
    lemma_cycle_convergence(obs.entries@, obs.labels@, obs.holders@.to_set());
}

/// Law: a plan made on an already converged holder set grants nothing and
/// revokes nothing, so a second pass over unchanged stores is a no-op.
pub proof fn lemma_plan_idempotent(obs: LeaderboardObservation, res: ReconciliationResult)
    requires
        plan_matches(obs, res),
        obs.holders@.to_set() == resolved_id_set(obs.entries@, obs.labels@),
    ensures
        res.roles_granted@.len() == 0,
        res.roles_revoked@.len() == 0,
{
    assert(grant_set(obs.entries@, obs.labels@, obs.holders@.to_set()) =~= Set::<i64>::empty());
    assert(revoke_set(obs.entries@, obs.labels@, obs.holders@.to_set()) =~= Set::<i64>::empty());
    if res.roles_granted@.len() > 0 {
        let x = res.roles_granted@[0];
        assert(res.roles_granted@.contains(x));
        assert(res.roles_granted@.to_set().contains(x));
    }
    if res.roles_revoked@.len() > 0 {
        let x = res.roles_revoked@[0];
        assert(res.roles_revoked@.contains(x));
        assert(res.roles_revoked@.to_set().contains(x));
    }
}

/// Whether the configured guild is among the guilds a ready event names.
pub fn guild_present(guilds: &Vec<u64>, guild: u64) -> (b: bool)
    ensures
        b == guilds@.contains(guild),
{
    let mut i: usize = 0;
    while i < guilds.len()
        invariant
            i <= guilds@.len(),
            forall|j: int| 0 <= j < i ==> guilds@[j] != guild,
        decreases guilds@.len() - i,
    {
        if guilds[i] == guild {
            return true;
        }
        i = i + 1;
    }
    false
}

} // verus!
