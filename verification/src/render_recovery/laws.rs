//! What the recovery rules promise as a whole: a ladder that only goes down and
//! always ends, one relaunch per process, and no guess about who owns the name.

use super::claim::{Claimed, Claiming, ClaimStage};
use super::classify::{decision, doubtful_pid, ownership, Decision};
use super::cli::Flags;
use super::dbus::{Observation, Owner};
use super::episode::{eligible, is_current, next_rung, retried, Advance, Episode, Termination};
use super::hand_off::{Release, Stage};
use super::launcher::{
    applied, child_environment_is_exactly_its_tier, exact_changes, tag_in, tag_keys,
    tags_round_trip, Tag,
};
use super::profiles::{
    assignment, present_in, rungs_are_named_apart, tier_vars, Package, APPIMAGE,
};
use super::protocol::{Reply, Turn};
use super::run::run;
use super::session::{
    conflict, key_part, launched, reconciled, Boot, BootModel, Booting, Disabled, Session,
};
use super::state::{Claim, Phase, Record, RETRY_GENERATION};
use super::task::{booting, Outcome, Task, TaskModel};
use crate::text::{joined, joined_texts_say_their_parts, lemma_says, lemma_says_within, says};
use vstd::prelude::*;

verus! {

// ── The ladder ──────────────────────────────────────────────────────────────

/// Whether `attempt` is what may follow when `failed` has failed: the sole retry
/// of an unclaimed attempt, or a fresh attempt exactly one rung down.
pub open spec fn follows(
    package: Package,
    failed: Record<Seq<char>>,
    attempt: Record<Seq<char>>,
) -> bool {
    ||| {
        &&& failed.phase is Prepared && failed.generation < RETRY_GENERATION
        &&& attempt.token == failed.token && attempt.generation == failed.generation + 1
        &&& attempt.tier == failed.tier
    }
    ||| {
        &&& failed.tier < package.terminal()
        &&& attempt.tier == failed.tier + 1 && attempt.generation == 0
    }
}

/// How many attempts are left after this one: two for every rung below, and the
/// retry of this one if it is not spent.
pub open spec fn attempts_left(package: Package, attempt: Record<Seq<char>>) -> int {
    2 * (package.terminal() - attempt.tier) + (if attempt.generation < RETRY_GENERATION {
        1int
    } else {
        0int
    })
}

/// Each attempt uses one up.
pub proof fn attempts_run_out(
    package: Package,
    failed: Record<Seq<char>>,
    attempt: Record<Seq<char>>,
)
    requires
        failed.tier < package.rungs(),
        follows(package, failed, attempt),
    ensures
        attempt.tier < package.rungs(),
        0 <= attempts_left(package, attempt) < attempts_left(package, failed),
{
}

/// The rung count caps the ladder: however the attempts of one descent fail,
/// there are at most two for each rung, an attempt and its sole retry.
pub proof fn a_descent_is_finite(package: Package, attempts: Seq<Record<Seq<char>>>)
    requires
        attempts.len() > 0,
        attempts[0].tier < package.rungs(),
        forall|i: int|
            0 < i < attempts.len() ==> follows(package, attempts[i - 1], #[trigger] attempts[i]),
    ensures
        attempts.last().tier < package.rungs(),
        attempts.len() + attempts_left(package, attempts.last()) <= 2 * package.rungs(),
        attempts.len() <= 2 * package.rungs(),
    decreases attempts.len(),
{
    if attempts.len() > 1 {
        let before = attempts.drop_last();
        assert forall|i: int| 0 < i < before.len() implies follows(
            package,
            before[i - 1],
            #[trigger] before[i],
        ) by {
            assert(before[i] == attempts[i] && before[i - 1] == attempts[i - 1]);
        }
        a_descent_is_finite(package, before);
        assert(attempts[attempts.len() - 1] == attempts.last());
        assert(before.last() == attempts[attempts.len() - 2]);
        attempts_run_out(package, before.last(), attempts.last());
    }
}

/// A crash steps down exactly one rung, and never repeats or skips one.
pub proof fn a_crash_steps_down_one_rung(package: Package, tier: usize)
    ensures
        match next_rung(package, tier) {
            Advance::Tier(next) => next == tier + 1 && next < package.rungs(),
            Advance::Exhausted => tier >= package.terminal(),
        },
{
}

/// An attempt that a boot makes because of the record it found follows that
/// record: it is the retry of an attempt nobody claimed, or one rung down from an
/// attempt that failed. The one other child a boot prepares runs a tier that
/// started cleanly before.
pub proof fn boots_follow_the_record(
    session: Session<Seq<char>>,
    record: Record<Seq<char>>,
    observation: Observation<Seq<char>>,
    bus_id: Option<Seq<char>>,
    alive: bool,
)
    requires
        !session.frozen,
        session.tier == 0,
        session.episode is None,
    ensures
        match session.acts_on(
            record,
            decision(record, observation, bus_id, session.version, alive),
        ) {
            Turn::Ask(Booting::HandOff(_, task)) => {
                &&& task.stage == Stage::Lock(retried(record))
                &&& follows(session.package, record, task.attempt.record(retried(record)))
            },
            Turn::Ask(Booting::Mint(next)) => {
                ||| record.phase is Confirmed && next.tier == record.tier
                ||| forall|episode: Episode<Seq<char>>|
                    episode.generation == 0 ==> #[trigger] follows(
                        session.package,
                        record,
                        next.attempt(next.tier, Release::NothingHeld).record(episode),
                    )
            },
            _ => true,
        },
{
}

/// A spent ladder stays spent under the version that spent it: no attempt is
/// made, and the session that runs on never makes one.
pub proof fn exhaustion_is_terminal(
    session: Session<Seq<char>>,
    record: Record<Seq<char>>,
    observation: Observation<Seq<char>>,
    bus_id: Option<Seq<char>>,
    alive: bool,
)
    requires
        record.phase is Exhausted,
        record.version == session.version,
    ensures
        session.acts_on(record, decision(record, observation, bus_id, session.version, alive))
            == BootModel::Done(Boot::Run(Session { frozen: true, ..session })),
        forall|phase: Phase| !(#[trigger] phase.rank() > record.phase.rank()),
{
}

// ── Reading the record ──────────────────────────────────────────────────────

/// A record of another version is discarded, whatever else it says.
pub proof fn an_upgrade_discards_the_record(
    record: Record<Seq<char>>,
    observation: Observation<Seq<char>>,
    bus_id: Option<Seq<char>>,
    version: Seq<char>,
    alive: bool,
)
    ensures
        decision(record, observation, bus_id, version, alive) is DiscardAndBaseline
            <==> record.version != version,
{
}

/// An attempt nobody claimed is retried once and only once: exactly generation 0
/// is retried, and its retry is not.
pub proof fn an_attempt_is_retried_once(
    record: Record<Seq<char>>,
    observation: Observation<Seq<char>>,
    bus_id: Option<Seq<char>>,
    version: Seq<char>,
    alive: bool,
)
    requires
        record.version == version,
    ensures
        decision(record, observation, bus_id, version, alive) is RetrySameTier
            <==> record.phase is Prepared && record.generation == 0,
        decision(record, observation, bus_id, version, alive) is RetrySameTier ==> !(decision(
            Record { generation: retried(record).generation, ..record },
            observation,
            bus_id,
            version,
            alive,
        ) is RetrySameTier),
{
}

/// Whether two decisions are the same for the tiers they are about.
pub open spec fn same_but_for_tier(
    decision: Decision<Seq<char>>,
    tier: usize,
    other: Decision<Seq<char>>,
    other_tier: usize,
) -> bool {
    match (decision, other) {
        (
            Decision::RetrySameTier { reason, tier: own },
            Decision::RetrySameTier { reason: again, tier: next },
        ) => reason == again && own == tier && next == other_tier,
        (
            Decision::AdvanceOrStop { reason, tier: own },
            Decision::AdvanceOrStop { reason: again, tier: next },
        ) => reason == again && own == tier && next == other_tier,
        (Decision::ReuseProfile { tier: own }, Decision::ReuseProfile { tier: next }) => own == tier
            && next == other_tier,
        (Decision::StopExhausted { tier: own }, Decision::StopExhausted { tier: next }) => own
            == tier && next == other_tier,
        (Decision::Defer(reason), Decision::Defer(again)) => reason == again,
        (
            Decision::DiscardAndBaseline { reason },
            Decision::DiscardAndBaseline { reason: again },
        ) => reason == again,
        _ => false,
    }
}

/// A decision, and the reason given for it, goes by how far an attempt came, by
/// whether it was the first try, and by whether its version and its child are
/// still there. Its token, profile and tier decide nothing: two records that agree
/// on the rest are decided alike, each for its own tier.
pub proof fn decisions_go_by_how_far_an_attempt_came(
    record: Record<Seq<char>>,
    other: Record<Seq<char>>,
    observation: Observation<Seq<char>>,
    bus_id: Option<Seq<char>>,
    version: Seq<char>,
    alive: bool,
)
    requires
        record.phase == other.phase,
        record.generation == 0 <==> other.generation == 0,
        record.version == version <==> other.version == version,
        record.pid is Some <==> other.pid is Some,
        ownership(record, observation, bus_id) == ownership(other, observation, bus_id),
    ensures
        same_but_for_tier(
            decision(record, observation, bus_id, version, alive),
            record.tier,
            decision(other, observation, bus_id, version, alive),
            other.tier,
        ),
{
}

/// Only the bus's own word makes an owner absent: an unreachable bus is an owner
/// that cannot be identified.
pub proof fn an_unavailable_bus_is_not_a_free_name(
    record: Record<Seq<char>>,
    observation: Observation<Seq<char>>,
    bus_id: Option<Seq<char>>,
)
    ensures
        ownership(record, observation, bus_id) is Absent <==> observation is Free,
        observation is Unavailable ==> ownership(record, observation, bus_id) is Uncorrelatable,
{
}

/// A unique name counts only on the bus that issued it: a receipt from another
/// bus, or one that names no bus, never correlates.
pub proof fn a_foreign_bus_never_correlates(
    record: Record<Seq<char>>,
    observation: Observation<Seq<char>>,
    bus_id: Option<Seq<char>>,
)
    requires
        record.phase is Owned || record.phase is Confirmed,
        record.bus_id is None || record.bus_id != bus_id,
    ensures
        !(ownership(record, observation, bus_id) is Correlated),
{
}

/// An owner is the recorded child if it bears the identity that the record's phase
/// goes by: the unique name on the recorded bus once the child has owned the name,
/// and the pid before. It is another process if that identity is known and
/// different. If it is not known on either side, nothing can be said.
pub proof fn owners_are_told_by_what_was_recorded(
    record: Record<Seq<char>>,
    owner: Owner<Seq<char>>,
    bus_id: Option<Seq<char>>,
)
    ensures
        ({
            let by_name = record.phase is Owned || record.phase is Confirmed;
            let known = if by_name {
                record.unique_name is Some && record.bus_id is Some && record.bus_id == bus_id
            } else {
                record.pid is Some && owner.pid is Some
            };
            let same = if by_name {
                record.unique_name == Some(owner.unique_name)
            } else {
                record.pid == owner.pid
            };
            let relation = ownership(record, Observation::Owned(owner), bus_id);
            &&& relation is Correlated <==> known && same
            &&& relation is Mismatched <==> known && !same
            &&& relation is Uncorrelatable <==> !known
        }),
{
}

/// A live instance is never superseded: while the recorded child of this version
/// holds the name, a second launch defers to it.
pub proof fn a_live_owner_is_deferred_to(
    record: Record<Seq<char>>,
    observation: Observation<Seq<char>>,
    bus_id: Option<Seq<char>>,
    version: Seq<char>,
    alive: bool,
)
    requires
        record.version == version,
        record.phase is Started || record.phase is Owned || record.phase is Confirmed,
        ownership(record, observation, bus_id) is Correlated,
    ensures
        decision(record, observation, bus_id, version, alive) is Defer,
{
}

/// Whether the recorded child is running matters in one place only: a claimed
/// attempt of this version whose child has not taken the name yet.
pub proof fn liveness_only_matters_before_ownership(
    record: Record<Seq<char>>,
    observation: Observation<Seq<char>>,
    bus_id: Option<Seq<char>>,
    version: Seq<char>,
)
    requires
        doubtful_pid(record, observation, version) is None,
    ensures
        decision(record, observation, bus_id, version, true) == decision(
            record,
            observation,
            bus_id,
            version,
            false,
        ),
{
}

// ── One relaunch per process ────────────────────────────────────────────────

/// This process after a series of terminations.
pub open spec fn battered(
    session: Session<Seq<char>>,
    terminations: Seq<(Termination, u128)>,
) -> Session<Seq<char>>
    decreases terminations.len(),
{
    if terminations.len() == 0 {
        session
    } else {
        let (termination, since_launch) = terminations.last();
        battered(session, terminations.drop_last()).hit_by(termination, since_launch)
    }
}

/// How many of a series of terminations this process acts on.
pub open spec fn acted_on(
    session: Session<Seq<char>>,
    terminations: Seq<(Termination, u128)>,
) -> nat
    decreases terminations.len(),
{
    if terminations.len() == 0 {
        0
    } else {
        let before = terminations.drop_last();
        let (termination, since_launch) = terminations.last();
        acted_on(session, before) + (if battered(session, before).answers(
            termination,
            since_launch,
        ) is Ask {
            1nat
        } else {
            0nat
        })
    }
}

/// However often the web process ends, one process acts at most once, and a
/// frozen one never. An eligible crash is never forgotten: from then on no
/// crash-free start is recorded.
pub proof fn a_process_acts_once(
    session: Session<Seq<char>>,
    terminations: Seq<(Termination, u128)>,
)
    ensures
        acted_on(session, terminations) <= 1,
        session.frozen || session.crashed ==> acted_on(session, terminations) == 0,
        acted_on(session, terminations) == 1 ==> battered(session, terminations).crashed,
        session.crashed ==> battered(session, terminations).crashed,
        battered(session, terminations).frozen == session.frozen,
        forall|i: int|
            0 <= i < terminations.len() && eligible(
                (#[trigger] terminations[i]).0,
                terminations[i].1,
            ) ==> battered(session, terminations).crashed,
        battered(session, terminations).crashed ==> battered(session, terminations).confirms()
            is Done,
    decreases terminations.len(),
{
    if terminations.len() > 0 {
        let before = terminations.drop_last();
        a_process_acts_once(session, before);
        assert forall|i: int|
            0 <= i < terminations.len() && eligible(
                (#[trigger] terminations[i]).0,
                terminations[i].1,
            ) implies battered(session, terminations).crashed by {
            if i < before.len() {
                assert(before[i] == terminations[i]);
            }
        }
    }
}

// ── User configuration ──────────────────────────────────────────────────────

/// Presence is the test, not truthiness: the opt-out list is empty exactly if
/// none of the variables is set, to any value at all.
pub proof fn presence_opts_out(owned: Seq<Seq<char>>, env: Map<Seq<char>, Seq<char>>)
    ensures
        present_in(owned, env).len() == 0 <==> forall|i: int|
            0 <= i < owned.len() ==> !env.dom().contains(#[trigger] owned[i]),
        forall|i: int|
            0 <= i < owned.len() && env.dom().contains(#[trigger] owned[i]) ==> present_in(
                owned,
                env,
            ).contains(assignment(owned[i], env[owned[i]])),
    decreases owned.len(),
{
    if owned.len() > 0 {
        let rest = owned.drop_last();
        presence_opts_out(rest, env);
        let list = present_in(owned, env);
        let shorter = present_in(rest, env);
        assert forall|i: int|
            0 <= i < owned.len() && env.dom().contains(#[trigger] owned[i]) implies list.contains(
            assignment(owned[i], env[owned[i]]),
        ) by {
            let line = assignment(owned[i], env[owned[i]]);
            if i < rest.len() {
                assert(rest[i] == owned[i]);
                let k = choose|k: int| 0 <= k < shorter.len() && shorter[k] == line;
                assert(list[k] == line);
            } else {
                assert(list[list.len() - 1] == line);
            }
        }
        if list.len() == 0 {
            assert forall|i: int| 0 <= i < owned.len() implies !env.dom().contains(
                #[trigger] owned[i],
            ) by {
                if i < rest.len() {
                    assert(rest[i] == owned[i]);
                }
            }
        } else if shorter.len() == 0 {
            assert(env.dom().contains(owned[owned.len() - 1]));
        } else {
            let i = choose|i: int| 0 <= i < rest.len() && env.dom().contains(#[trigger] rest[i]);
            assert(owned[i] == rest[i]);
        }
    }
}

/// What a user has set is never overridden, and a request that contradicts it is
/// never silently dropped: an ordinary launch with an owned variable set runs
/// with recovery off, and with `--safe-rendering` it does not run at all.
pub proof fn user_configuration_wins_whole(
    identifier: Seq<char>,
    version: Seq<char>,
    flags: Flags,
    env: Map<Seq<char>, Seq<char>>,
    pid: u32,
    i: int,
)
    requires
        !flags.reset_rendering_mode,
        tag_in(env) is None,
        0 <= i < launched(identifier, version, env, pid).package.owned().len(),
        env.dom().contains(launched(identifier, version, env, pid).package.owned()[i]),
    ensures
        reconciled(Ok(()), identifier, version, flags, env, pid) matches Turn::Done(boot) && (
        if flags.safe_rendering {
            boot is Fatal
        } else {
            boot matches Boot::Off(Disabled::UserEnv(_))
        }),
{
    let owned = launched(identifier, version, env, pid).package.owned();
    presence_opts_out(owned, env);
}

/// A recovery child never takes what its parent set for user configuration: a
/// tagged launch runs as the child it is, whatever variables it finds set.
pub proof fn a_tag_outranks_user_configuration(
    identifier: Seq<char>,
    version: Seq<char>,
    flags: Flags,
    env: Map<Seq<char>, Seq<char>>,
    pid: u32,
    tag: Tag<Seq<char>>,
)
    requires
        !flags.reset_rendering_mode,
        tag_in(env) == Some(tag),
    ensures
        reconciled(Ok(()), identifier, version, flags, env, pid) == launched(
            identifier,
            version,
            env,
            pid,
        ).starts_as_child(tag),
{
}

/// The escape hatch is always reachable: with a state directory,
/// `--reset-rendering-mode` is acted on whatever else the environment holds.
pub proof fn reset_is_always_reachable(
    identifier: Seq<char>,
    version: Seq<char>,
    flags: Flags,
    env: Map<Seq<char>, Seq<char>>,
    pid: u32,
)
    requires
        flags.reset_rendering_mode,
    ensures
        reconciled(Ok(()), identifier, version, flags, env, pid) == BootModel::Ask(
            Booting::ResetLock,
        ),
{
}

/// The key of an assignment is what stands before its first `=`.
pub proof fn keys_end_at_the_first_equals_sign(assignment: Seq<char>)
    ensures
        ({
            let key = key_part(assignment);
            &&& key.len() <= assignment.len() && key == assignment.take(key.len() as int)
            &&& forall|i: int| 0 <= i < key.len() ==> #[trigger] key[i] != '='
            &&& key.len() < assignment.len() ==> assignment[key.len() as int] == '='
        }),
    decreases assignment.len(),
{
    if assignment.len() > 0 && assignment[0] != '=' {
        let rest = assignment.skip(1);
        keys_end_at_the_first_equals_sign(rest);
        let key = key_part(assignment);
        assert(key =~= assignment.take(key.len() as int));
        assert forall|i: int| 0 <= i < key.len() implies #[trigger] key[i] != '=' by {
            if i > 0 {
                assert(key[i] == key_part(rest)[i - 1]);
            }
        }
    }
}

/// The key of an assignment is read back from it, provided the key itself holds
/// no `=`.
pub proof fn assignments_name_their_key(key: Seq<char>, value: Seq<char>)
    requires
        forall|i: int| 0 <= i < key.len() ==> #[trigger] key[i] != '=',
    ensures
        key_part(assignment(key, value)) == key,
    decreases key.len(),
{
    reveal_strlit("=");
    let line = assignment(key, value);
    if key.len() == 0 {
        assert(line[0] == '=');
        assert(key_part(line) =~= key);
    } else {
        let rest = key.skip(1);
        assert(line[0] == key[0]);
        assert(line.skip(1) =~= assignment(rest, value));
        assert forall|i: int| 0 <= i < rest.len() implies #[trigger] rest[i] != '=' by {
            assert(rest[i] == key[i + 1]);
        }
        assignments_name_their_key(rest, value);
        assert(seq![key[0]] + rest =~= key);
    }
}

/// A conflict shows everything that is set, and names everything that would have to
/// be unset; so does the reason why recovery is off.
pub proof fn conflicts_name_what_is_set(present: Seq<Seq<char>>, error: Seq<char>, i: int)
    requires
        0 <= i < present.len(),
    ensures
        says(conflict(present), present[i]),
        says(conflict(present), key_part(present[i])),
        says(conflict(present), "--safe-rendering"@),
        says((Disabled::<Seq<char>, Seq<Seq<char>>>::UserEnv(present)).text(), present[i]),
        (Disabled::<Seq<char>, Seq<Seq<char>>>::NoStateDir(error)).text() == error,
{
    let keys = present.map_values(|assignment: Seq<char>| key_part(assignment));
    assert(keys[i] == key_part(present[i]));
    joined_texts_say_their_parts(present, ", "@, i);
    joined_texts_say_their_parts(keys, ", "@, i);
    let nothing = Seq::<char>::empty();
    let flag = "--safe-rendering"@;
    let set = joined(present, ", "@);
    let unset = joined(keys, ", "@);
    let end = " and run "@ + flag + " again, or keep that environment and drop the flag."@;
    let middle = " already set in the environment. Either unset "@;
    let start = flag + " cannot be applied: "@;
    assert(conflict(present) =~= start + set + (middle + unset + end));
    lemma_says_within(start, set, middle + unset + end, present[i]);
    assert(conflict(present) =~= (start + set + middle) + unset + end);
    lemma_says_within(start + set + middle, unset, end, keys[i]);
    assert(conflict(present) =~= nothing + flag + (" cannot be applied: "@ + set + middle + unset
        + end));
    lemma_says(nothing, flag, " cannot be applied: "@ + set + middle + unset + end);
    let tail =
        " set in the environment; renderer recovery leaves user configuration alone"@;
    assert(Disabled::<Seq<char>, Seq<Seq<char>>>::UserEnv(present).text() =~= nothing + set + tail);
    lemma_says_within(nothing, set, tail, present[i]);
}

// ── From parent to child ────────────────────────────────────────────────────

/// The environment a child gets from its parent.
pub open spec fn child_env(
    env: Map<Seq<char>, Seq<char>>,
    package: Package,
    tier: usize,
    tag: Tag<Seq<char>>,
) -> Map<Seq<char>, Seq<char>> {
    applied(env, exact_changes(package, tier_vars(tier as int), tag))
}

/// The replies of a host on which everything a claim asks for succeeds.
pub open spec fn claim_granted(record: Record<Seq<char>>) -> Seq<Reply<Seq<char>>> {
    seq![
        Reply::Locked(Ok(())),
        Reply::Found(Some(record)),
        Reply::Claimed(Claim::Won),
        Reply::Written(Ok(())),
        Reply::Done,
    ]
}

/// A child is of the same package as its parent.
proof fn lemma_child_package(
    env: Map<Seq<char>, Seq<char>>,
    identifier: Seq<char>,
    version: Seq<char>,
    pid: u32,
    package: Package,
    tier: usize,
    tag: Tag<Seq<char>>,
)
    requires
        tier < package.rungs(),
        package == launched(identifier, version, env, pid).package,
    ensures
        launched(identifier, version, child_env(env, package, tier, tag), pid).package == package,
{
    reveal_strlit("APPIMAGE");
    reveal_strlit("BUZZ_RENDER_EPISODE");
    reveal_strlit("BUZZ_RENDER_GENERATION");
    reveal_strlit("BUZZ_RENDER_PROFILE");
    reveal_strlit("BUZZ_RENDER_FORCED");
    reveal_strlit("WEBKIT_DMABUF_RENDERER_FORCE_SHM");
    reveal_strlit("WEBKIT_DISABLE_DMABUF_RENDERER");
    reveal_strlit("WEBKIT_SKIA_ENABLE_CPU_RENDERING");
    reveal_strlit("WEBKIT_DISABLE_COMPOSITING_MODE");
    reveal_strlit("GDK_BACKEND");
    assert(APPIMAGE@[0] == 'A');
    assert forall|i: int| 0 <= i < package.owned().len() implies #[trigger] package.owned()[i]
        != APPIMAGE@ by {
        assert(package.owned()[i][0] != 'A');
    }
    assert forall|i: int| 0 <= i < tag_keys().len() implies #[trigger] tag_keys()[i]
        != APPIMAGE@ by {
        assert(tag_keys()[i][0] == 'B');
    }
    child_environment_is_exactly_its_tier(env, package, tier, tag, APPIMAGE@);
}

proof fn lemma_claim_granted(
    session: Session<Seq<char>>,
    episode: Episode<Seq<char>>,
    record: Record<Seq<char>>,
)
    requires
        record.phase is Prepared,
        is_current(record, episode),
        record.tier == session.tier,
    ensures
        ({
            let claiming = Claiming { episode, pid: session.pid, stage: ClaimStage::Lock };
            let start = TaskModel::Ask(Task::Boot(Booting::Claim(session, claiming)));
            run(start, Some(record), claim_granted(record)).0 == TaskModel::Done(
                Outcome::Booted(Boot::Run(Session { episode: Some(episode), ..session })),
            )
        }),
{
    let claiming = Claiming { episode, pid: session.pid, stage: ClaimStage::Lock };
    let start = TaskModel::Ask(Task::Boot(Booting::Claim(session, claiming)));
    let all = claim_granted(record);
    assert(all.drop_last() =~= all.take(4));
    assert(all.take(4).drop_last() =~= all.take(3));
    assert(all.take(3).drop_last() =~= all.take(2));
    assert(all.take(2).drop_last() =~= all.take(1));
    assert(all.take(1).drop_last() =~= all.take(0));
    assert(run(start, Some(record), all.take(0)).0 == start);
    assert(run(start, Some(record), all.take(1)).0 == TaskModel::Ask(
        Task::Boot(Booting::Claim(session, Claiming { stage: ClaimStage::Read, ..claiming })),
    ));
    let found = ClaimStage::Claim(record);
    assert(run(start, Some(record), all.take(2)).0 == TaskModel::Ask(
        Task::Boot(Booting::Claim(session, Claiming { stage: found, ..claiming })),
    ));
    let won = ClaimStage::Write(record);
    assert(run(start, Some(record), all.take(3)).0 == TaskModel::Ask(
        Task::Boot(Booting::Claim(session, Claiming { stage: won, ..claiming })),
    ));
    let owner = ClaimStage::Unlock(Claimed::Owner { episode, tier: record.tier });
    assert(run(start, Some(record), all.take(4)).0 == TaskModel::Ask(
        Task::Boot(Booting::Claim(session, Claiming { stage: owner, ..claiming })),
    ));
}

/// A handoff that works hands over exactly what was prepared. The child of a
/// handoff, whatever the parent's environment held, recognises itself, finds the
/// tier it carries by name, and claims the episode it was launched for; and if the
/// record its parent made durable is still there, it runs on as the owner of that
/// episode at that tier.
pub proof fn a_child_takes_over_what_was_prepared(
    env: Map<Seq<char>, Seq<char>>,
    identifier: Seq<char>,
    version: Seq<char>,
    flags: Flags,
    pid: u32,
    tier: usize,
    episode: Episode<Seq<char>>,
)
    requires
        !flags.reset_rendering_mode,
        tier < launched(identifier, version, env, pid).package.rungs(),
        episode.token.len() > 0,
    ensures
        ({
            let session = launched(identifier, version, env, pid);
            let attempt = session.attempt(tier, Release::NothingHeld);
            let child = child_env(env, session.package, tier, attempt.tag(Some(episode)));
            let record = attempt.record(episode);
            let start = reconciled(Ok(()), identifier, version, flags, child, pid);
            &&& start == BootModel::Ask(
                Booting::Claim(
                    Session { tier, ..session },
                    Claiming { episode, pid, stage: ClaimStage::Lock },
                ),
            )
            &&& run(booting(start), Some(record), claim_granted(record)).0
                == TaskModel::Done(
                Outcome::Booted(Boot::Run(Session { tier, episode: Some(episode), ..session })),
            )
        }),
{
    let session = launched(identifier, version, env, pid);
    let attempt = session.attempt(tier, Release::NothingHeld);
    let tag = attempt.tag(Some(episode));
    let child = child_env(env, session.package, tier, tag);
    lemma_child_package(env, identifier, version, pid, session.package, tier, tag);
    tags_round_trip(env, session.package, tier, tag);
    rungs_are_named_apart(session.package, tier);
    assert(tag_in(child) == Some(tag));
    assert(reconciled(Ok(()), identifier, version, flags, child, pid) == session.starts_as_child(
        tag,
    ));
    lemma_claim_granted(Session { tier, ..session }, episode, attempt.record(episode));
}

/// The child of `--safe-rendering` runs the forced tier, frozen and without an
/// episode, at once.
pub proof fn a_forced_child_runs_its_tier(
    env: Map<Seq<char>, Seq<char>>,
    identifier: Seq<char>,
    version: Seq<char>,
    flags: Flags,
    pid: u32,
    tier: usize,
)
    requires
        !flags.reset_rendering_mode,
        tier < launched(identifier, version, env, pid).package.rungs(),
    ensures
        ({
            let session = launched(identifier, version, env, pid);
            let tag = session.attempt(tier, Release::NothingHeld).tag(None);
            let child = child_env(env, session.package, tier, tag);
            reconciled(Ok(()), identifier, version, flags, child, pid) == BootModel::Done(
                Boot::Run(Session { tier, frozen: true, ..session }),
            )
        }),
{
    let session = launched(identifier, version, env, pid);
    let tag = session.attempt(tier, Release::NothingHeld).tag(None);
    lemma_child_package(env, identifier, version, pid, session.package, tier, tag);
    tags_round_trip(env, session.package, tier, tag);
    rungs_are_named_apart(session.package, tier);
}

} // verus!
