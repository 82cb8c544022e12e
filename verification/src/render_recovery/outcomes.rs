//! What each task comes to, by what it was given and what it was told.
//!
//! The laws here follow a task from its beginning to its end, whatever its host
//! replies. They name tiers, profiles, records and outcomes outright, by the
//! session, the record on disk and the replies.

use super::claim::{Claimed, Claiming, ClaimStage};
use super::classify::{decision, doubtful_pid};
use super::cli::Flags;
use super::dbus::Observation;
use super::episode::{Episode, Termination};
use super::hand_off::{Attempt, HandOff, Prepared, Release, Stage};
use super::launcher::{tag_in, Handoff, Tag};
use super::laws::presence_opts_out;
use super::profiles::{package_in, present_in, rungs_are_named_apart, tier_name, Package};
use super::protocol::{Reply, Request, Turn};
use super::receipt::{ExhaustStage, Exhausting, NoteStage};
use super::run::{outset, run, told, Story};
use super::session::{
    conflict, launched, reconciled, Boot, BootModel, Booting, CrashResponse, Crashing, Disabled,
    Session,
};
use super::state::{Claim, Phase, Record};
use super::task::{booting, crashing, noting, Outcome, Task, TaskModel};
use crate::text::parsed_u32;
use vstd::prelude::*;

verus! {

// ── Handing over ────────────────────────────────────────────────────────────

/// The index of the safest rung: an AppImage has four rungs, native Linux five.
pub open spec fn last_rung(package: Package) -> usize {
    match package {
        Package::AppImage => 3,
        Package::Native => 4,
    }
}

/// A child to be launched: by whom, at which tier, for which episode if for any,
/// and whether the launching app is live and has to give up its name first.
pub struct Plan {
    pub parent: Session<Seq<char>>,
    pub tier: usize,
    pub episode: Option<Episode<Seq<char>>>,
    pub live: bool,
}

impl Plan {
    /// The record that a child for `episode` is to claim.
    pub open spec fn leaves(self, episode: Episode<Seq<char>>) -> Record<Seq<char>> {
        Record {
            phase: Phase::Prepared,
            token: episode.token,
            generation: episode.generation,
            profile: tier_name(self.tier as int),
            tier: self.tier,
            version: self.parent.version,
            pid: None,
            unique_name: None,
            bus_id: None,
        }
    }

    /// What the child is told of itself.
    pub open spec fn names(self) -> Tag<Seq<char>> {
        Tag { episode: self.episode, profile: tier_name(self.tier as int) }
    }

    /// Whether `request` serves this plan. The first record to be written is the
    /// child's, and what is written or cleared after it puts back what was there
    /// before. A child that is spawned is exactly the planned one.
    pub open spec fn allows(self, request: Request<Seq<char>>, story: Story) -> bool {
        match request {
            Request::Write(record) => match story.durable {
                None => self.episode matches Some(episode) && record == self.leaves(episode),
                Some(_) => story.alone ==> story.base == Some(record),
            },
            Request::Clear => story.durable is Some && (story.alone ==> story.base is None),
            Request::PruneClaims { token } => {
                &&& self.episode matches Some(episode)
                &&& token == episode.token && episode.generation == 0
            },
            Request::Spawn { package, tier, tag } => {
                &&& package == self.parent.package && tier == self.tier
                &&& tag == self.names()
                &&& story.free == Some(self.parent.dbus_name)
            },
            Request::Observe { name } => name == self.parent.dbus_name,
            Request::Release => self.live,
            Request::Claim(_) | Request::BusId | Request::Probe { .. } => false,
            _ => true,
        }
    }

    /// Whether the child was launched as planned: it exists, it finds its record,
    /// and the claims of other tokens are gone if its episode is a new one.
    pub open spec fn launched(self, story: Story) -> bool {
        &&& story.spawned == 1 && story.child == Some(self.names())
        &&& story.released == self.live && !hindered(story)
        &&& match self.episode {
            Some(episode) => {
                &&& story.disk == Some(self.leaves(episode))
                &&& story.pruned == (if episode.generation == 0 {
                    Some(episode.token)
                } else {
                    None
                })
            },
            None => story.disk == story.base,
        }
    }

    /// Whether there is no child, for a reason, and the record is as it was unless
    /// somebody else changed it or it could not be put back.
    pub open spec fn refused(self, story: Story) -> bool {
        &&& story.spawned == 0 && hindered(story)
        &&& story.alone && !story.stuck ==> story.disk == story.base
        &&& self.episode is None ==> story.disk == story.base
        &&& story.released ==> self.live
    }
}

/// Whether anything stood in the way of a child: a lock, a write, the binary or
/// the spawn failed, or the name was not free.
pub open spec fn hindered(story: Story) -> bool {
    story.denied || story.missed || story.barred
}

/// Nothing was made durable, and the record is as it was.
spec fn untouched(story: Story) -> bool {
    story.disk == story.base && story.durable is None && story.pruned is None
}

/// The prepared record is on disk.
spec fn laid(plan: Plan, prepared: Prepared<Seq<char>>, story: Story) -> bool {
    &&& plan.episode == Some(prepared.episode)
    &&& story.durable == Some(plan.leaves(prepared.episode))
    &&& story.disk == story.durable
    &&& story.alone ==> prepared.previous == story.base
}

spec fn pruned_for(episode: Episode<Seq<char>>, story: Story) -> bool {
    story.pruned == (if episode.generation == 0 {
        Some(episode.token)
    } else {
        None
    })
}

spec fn on_the_way(plan: Plan, prepared: Option<Prepared<Seq<char>>>, story: Story) -> bool {
    match prepared {
        Some(prepared) => laid(plan, prepared, story) && pruned_for(prepared.episode, story),
        None => plan.episode is None && untouched(story),
    }
}

/// Whether a refusal is told on the right side of the release.
spec fn turned(plan: Plan, handoff: Handoff<Seq<char>>, story: Story) -> bool {
    match handoff {
        Handoff::Launched => false,
        Handoff::RefusedBeforeRelease(_) => !story.released,
        Handoff::RefusedAfterRelease(_) => story.released && plan.live,
    }
}

spec fn handing(task: HandOff<Seq<char>>, plan: Plan, story: Story) -> bool {
    &&& task.attempt == (Attempt {
        dbus_name: plan.parent.dbus_name,
        package: plan.parent.package,
        version: plan.parent.version,
        tier: plan.tier,
        release: if plan.live {
            Release::SingleInstanceName
        } else {
            Release::NothingHeld
        },
    })
    &&& plan.tier <= last_rung(plan.parent.package)
    &&& story.spawned == 0
    &&& task.stage is Release || task.stage is Observe || task.stage is Spawn ==> story.located
    &&& match task.stage {
        Stage::Lock(episode) => {
            &&& plan.episode == Some(episode)
            &&& untouched(story) && !story.released && !hindered(story)
        },
        Stage::Read(episode) => {
            &&& plan.episode == Some(episode)
            &&& untouched(story) && !story.released && !hindered(story)
        },
        Stage::Write(prepared) => {
            &&& plan.episode == Some(prepared.episode)
            &&& untouched(story) && !story.released && !hindered(story)
            &&& story.alone ==> prepared.previous == story.base
        },
        Stage::Abandon(_) => untouched(story) && !story.released && story.denied,
        Stage::Prune(prepared) => {
            &&& laid(plan, prepared, story) && prepared.episode.generation == 0
            &&& !story.released && !hindered(story) && story.pruned is None
        },
        Stage::Unlock(prepared) => {
            &&& laid(plan, prepared, story) && pruned_for(prepared.episode, story)
            &&& !story.released && !hindered(story)
        },
        Stage::Binary(prepared) => {
            &&& on_the_way(plan, prepared, story)
            &&& !story.released && !hindered(story)
        },
        Stage::Release(prepared) => {
            &&& plan.live && on_the_way(plan, prepared, story)
            &&& !story.released && !hindered(story)
        },
        Stage::Observe(prepared) => {
            &&& on_the_way(plan, prepared, story)
            &&& story.released == plan.live && !hindered(story)
        },
        Stage::Spawn(prepared) => {
            &&& on_the_way(plan, prepared, story)
            &&& story.released == plan.live && !hindered(story)
            &&& story.free == Some(plan.parent.dbus_name)
        },
        Stage::Relock(prepared, handoff) => {
            &&& laid(plan, prepared, story)
            &&& turned(plan, handoff, story) && hindered(story)
        },
        Stage::Reread(prepared, handoff) => {
            &&& laid(plan, prepared, story)
            &&& turned(plan, handoff, story) && hindered(story)
        },
        Stage::Restore(prepared, handoff) => {
            &&& laid(plan, prepared, story)
            &&& turned(plan, handoff, story) && hindered(story)
        },
        Stage::Reunlock(handoff) => {
            &&& turned(plan, handoff, story) && hindered(story)
            &&& plan.episode is Some
            &&& story.alone && !story.stuck ==> story.disk == story.base
        },
    }
}

spec fn handed_over(plan: Plan, handoff: Handoff<Seq<char>>, story: Story) -> bool {
    if handoff is Launched {
        plan.launched(story)
    } else {
        plan.refused(story) && turned(plan, handoff, story)
    }
}

#[verifier::rlimit(40)]
proof fn lemma_handing_step(
    task: HandOff<Seq<char>>,
    plan: Plan,
    story: Story,
    reply: Reply<Seq<char>>,
)
    requires
        handing(task, plan, story),
    ensures
        plan.allows(task.asks(), story),
        told(story, task.asks(), reply).minted == story.minted,
        told(story, task.asks(), reply).base == story.base,
        told(story, task.asks(), reply).bus == story.bus,
        told(story, task.asks(), reply).alive == story.alive,
        told(story, task.asks(), reply).greeted == story.greeted,
        told(story, task.asks(), reply).probed == story.probed,
        story.first_read is Some ==> told(story, task.asks(), reply).first_read
            == story.first_read,
        story.first_sight is Some ==> told(story, task.asks(), reply).first_sight
            == story.first_sight,
        match task.next(reply) {
            Turn::Ask(next) => handing(next, plan, told(story, task.asks(), reply)),
            Turn::Done(handoff) => handed_over(plan, handoff, told(story, task.asks(), reply)),
        },
{
}

// ── Crashes ─────────────────────────────────────────────────────────────────

/// The child that answers a crash of `session`: one rung down, for a new episode.
pub open spec fn next_child(session: Session<Seq<char>>, story: Story) -> Plan {
    Plan {
        parent: session,
        tier: (session.tier + 1) as usize,
        episode: story.minted,
        live: true,
    }
}

spec fn stepping_down(turn: TaskModel, session: Session<Seq<char>>, story: Story) -> bool {
    let plan = next_child(session, story);
    match turn {
        Turn::Ask(Task::Crash(Crashing::Mint { session: own, next })) => {
            &&& own == (Session { crashed: true, ..session }) && next == session.tier + 1
            &&& untouched(story) && story.spawned == 0 && !story.released && !hindered(story)
        },
        Turn::Ask(Task::Crash(Crashing::HandOff(task))) => story.minted is Some && handing(
            task,
            plan,
            story,
        ),
        Turn::Done(Outcome::Answered(response)) => match response {
            CrashResponse::HandedOff => story.minted is Some && plan.launched(story),
            CrashResponse::Stranded => plan.refused(story) && story.released,
            CrashResponse::Continue => plan.refused(story) && !story.released,
        },
        _ => false,
    }
}

#[verifier::rlimit(40)]
proof fn lemma_stepping_down(
    start: TaskModel,
    session: Session<Seq<char>>,
    base: Option<Record<Seq<char>>>,
    replies: Seq<Reply<Seq<char>>>,
)
    requires
        session.tier < last_rung(session.package),
        stepping_down(start, session, outset(base)),
    ensures
        stepping_down(run(start, base, replies).0, session, run(start, base, replies).1),
        run(start, base, replies).1.base == base,
    decreases replies.len(),
{
    if replies.len() > 0 {
        let before = replies.drop_last();
        let reply = replies.last();
        lemma_stepping_down(start, session, base, before);
        let (turn, story) = run(start, base, before);
        if let Turn::Ask(Task::Crash(Crashing::HandOff(task))) = turn {
            lemma_handing_step(task, next_child(session, story), story, reply);
        }
    }
}

/// A startup crash relaunches the app exactly one rung further down.
///
/// A web process that crashes within five seconds of a launch that is not frozen,
/// has not crashed before and has a rung below it: whatever the host replies, the
/// record that is prepared and the child that is spawned are of the next tier,
/// under the episode that was minted. If nothing stands in the way the child is
/// launched; otherwise there is no child, and the app goes on, or is stranded if
/// its name is gone.
pub proof fn a_startup_crash_relaunches_one_rung_down(
    session: Session<Seq<char>>,
    termination: Termination,
    since_launch: u128,
    base: Option<Record<Seq<char>>>,
    replies: Seq<Reply<Seq<char>>>,
)
    requires
        termination is Crashed,
        since_launch <= 5_000_000_000,
        !session.crashed,
        !session.frozen,
        session.tier < last_rung(session.package),
    ensures
        ({
            let start = crashing(session.answers(termination, since_launch));
            let (turn, story) = run(start, base, replies);
            let plan = next_child(session, story);
            &&& start is Ask
            &&& match turn {
                Turn::Ask(task) => plan.allows(task.asks(), story),
                Turn::Done(outcome) => if hindered(story) {
                    &&& plan.refused(story)
                    &&& outcome == Outcome::<Seq<char>, Seq<Seq<char>>>::Answered(
                        if story.released {
                            CrashResponse::Stranded
                        } else {
                            CrashResponse::Continue
                        },
                    )
                } else {
                    &&& plan.launched(story) && story.minted is Some
                    &&& outcome == Outcome::<Seq<char>, Seq<Seq<char>>>::Answered(
                        CrashResponse::HandedOff,
                    )
                },
            }
        }),
{
    let start = crashing(session.answers(termination, since_launch));
    lemma_stepping_down(start, session, base, replies);
    let (turn, story) = run(start, base, replies);
    if let Turn::Ask(Task::Crash(Crashing::HandOff(task))) = turn {
        lemma_handing_step(task, next_child(session, story), story, Reply::Done);
    }
}

/// The end of the ladder as `session` writes it down, under `episode`.
pub open spec fn ladder_end(
    session: Session<Seq<char>>,
    episode: Episode<Seq<char>>,
    record: Record<Seq<char>>,
) -> bool {
    &&& record.phase is Exhausted
    &&& record.token == episode.token && record.generation == episode.generation
    &&& record.tier == session.tier && record.version == session.version
    &&& session.tier <= last_rung(session.package) ==> record.profile == tier_name(
        session.tier as int,
    )
    &&& record.pid == Some(session.pid)
    &&& record.unique_name is None && record.bus_id is None
}

/// Whether the end of the ladder is on disk, or why not.
pub open spec fn ladder_ended(
    session: Session<Seq<char>>,
    episode: Option<Episode<Seq<char>>>,
    story: Story,
) -> bool {
    &&& story.spawned == 0 && !story.released
    &&& if story.denied {
        story.disk == story.base
    } else {
        &&& story.disk matches Some(record)
        &&& episode matches Some(episode)
        &&& ladder_end(session, episode, record)
    }
}

/// Whether the end of the ladder is all that `request` changes.
pub open spec fn ends_only(
    session: Session<Seq<char>>,
    episode: Option<Episode<Seq<char>>>,
    request: Request<Seq<char>>,
) -> bool {
    match request {
        Request::Write(record) => episode matches Some(episode) && ladder_end(
            session,
            episode,
            record,
        ),
        Request::Lock | Request::Unlock | Request::Mint => true,
        _ => false,
    }
}

spec fn exhausting(
    task: Exhausting<Seq<char>>,
    session: Session<Seq<char>>,
    episode: Option<Episode<Seq<char>>>,
    story: Story,
) -> bool {
    &&& episode matches Some(episode) && ladder_end(session, episode, task.record)
    &&& story.spawned == 0 && !story.released
    &&& match task.stage {
        ExhaustStage::Unlock => if story.denied {
            story.disk == story.base
        } else {
            story.disk == Some(task.record)
        },
        _ => story.disk == story.base && !story.denied,
    }
}

#[verifier::rlimit(40)]
proof fn lemma_exhausting_step(
    task: Exhausting<Seq<char>>,
    session: Session<Seq<char>>,
    episode: Option<Episode<Seq<char>>>,
    story: Story,
    reply: Reply<Seq<char>>,
)
    requires
        exhausting(task, session, episode, story),
    ensures
        ends_only(session, episode, task.asks()),
        told(story, task.asks(), reply).minted == story.minted,
        told(story, task.asks(), reply).base == story.base,
        told(story, task.asks(), reply).bus == story.bus,
        told(story, task.asks(), reply).alive == story.alive,
        told(story, task.asks(), reply).greeted == story.greeted,
        told(story, task.asks(), reply).probed == story.probed,
        story.first_read is Some ==> told(story, task.asks(), reply).first_read
            == story.first_read,
        told(story, task.asks(), reply).first_sight == story.first_sight,
        match task.next(reply) {
            Turn::Ask(next) => exhausting(
                next,
                session,
                episode,
                told(story, task.asks(), reply),
            ),
            Turn::Done(()) => ladder_ended(session, episode, told(story, task.asks(), reply)),
        },
{
}

/// The episode under which `session` ends the ladder: its own, or a new one.
pub open spec fn last_episode(session: Session<Seq<char>>, story: Story) -> Option<
    Episode<Seq<char>>,
> {
    if session.episode is Some {
        session.episode
    } else {
        story.minted
    }
}

spec fn ending(turn: TaskModel, session: Session<Seq<char>>, story: Story) -> bool {
    match turn {
        Turn::Ask(Task::Crash(Crashing::ExhaustMint(own))) => {
            &&& own == (Session { crashed: true, ..session }) && session.episode is None
            &&& story.disk == story.base && story.spawned == 0 && !story.released && !story.denied
        },
        Turn::Ask(Task::Crash(Crashing::Exhaust(task))) => exhausting(
            task,
            session,
            last_episode(session, story),
            story,
        ),
        Turn::Done(Outcome::Answered(response)) => response is Continue && ladder_ended(
            session,
            last_episode(session, story),
            story,
        ),
        _ => false,
    }
}

#[verifier::rlimit(40)]
proof fn lemma_ending(
    start: TaskModel,
    session: Session<Seq<char>>,
    base: Option<Record<Seq<char>>>,
    replies: Seq<Reply<Seq<char>>>,
)
    requires
        ending(start, session, outset(base)),
    ensures
        ending(run(start, base, replies).0, session, run(start, base, replies).1),
        run(start, base, replies).1.base == base,
    decreases replies.len(),
{
    if replies.len() > 0 {
        let before = replies.drop_last();
        let reply = replies.last();
        lemma_ending(start, session, base, before);
        let (turn, story) = run(start, base, before);
        if let Turn::Ask(Task::Crash(Crashing::Exhaust(task))) = turn {
            lemma_exhausting_step(task, session, last_episode(session, story), story, reply);
        }
    }
}

/// A startup crash on the safest rung spawns no child and releases no name: all
/// it changes is the record, which then says that the ladder is spent, unless a
/// lock or write failed. The app carries on.
pub proof fn a_startup_crash_on_the_safest_rung_spends_the_ladder(
    session: Session<Seq<char>>,
    termination: Termination,
    since_launch: u128,
    base: Option<Record<Seq<char>>>,
    replies: Seq<Reply<Seq<char>>>,
)
    requires
        termination is Crashed,
        since_launch <= 5_000_000_000,
        !session.crashed,
        !session.frozen,
        session.tier >= last_rung(session.package),
    ensures
        ({
            let start = crashing(session.answers(termination, since_launch));
            let (turn, story) = run(start, base, replies);
            let episode = last_episode(session, story);
            &&& start is Ask
            &&& match turn {
                Turn::Ask(task) => ends_only(session, episode, task.asks()),
                Turn::Done(outcome) => {
                    &&& ladder_ended(session, episode, story)
                    &&& outcome == Outcome::<Seq<char>, Seq<Seq<char>>>::Answered(
                        CrashResponse::Continue,
                    )
                },
            }
        }),
{
    let start = crashing(session.answers(termination, since_launch));
    lemma_ending(start, session, base, replies);
    let (turn, story) = run(start, base, replies);
    if let Turn::Ask(Task::Crash(Crashing::Exhaust(task))) = turn {
        lemma_exhausting_step(task, session, last_episode(session, story), story, Reply::Done);
    }
}

/// Nothing else is acted on: a web process that ends for another reason or later
/// than five seconds after the launch, a second crash, and a crash of a frozen
/// launch. Only an early crash leaves a mark on the session, and it changes
/// nothing else about it.
pub proof fn other_terminations_are_not_acted_on(
    session: Session<Seq<char>>,
    termination: Termination,
    since_launch: u128,
)
    ensures
        ({
            let early = termination is Crashed && since_launch <= 5_000_000_000;
            &&& session.answers(termination, since_launch) == Turn::<
                Crashing<Seq<char>>,
                CrashResponse,
            >::Done(CrashResponse::Continue) <==> !early || session.crashed || session.frozen
            &&& session.hit_by(termination, since_launch) == (if early {
                Session { crashed: true, ..session }
            } else {
                session
            })
        }),
{
}

// ── Launches ────────────────────────────────────────────────────────────────

/// A launch as it comes up: at the fastest tier, with no episode, free to move.
pub open spec fn newcomer(
    identifier: Seq<char>,
    version: Seq<char>,
    env: Map<Seq<char>, Seq<char>>,
    pid: u32,
) -> Session<Seq<char>> {
    Session {
        package: if env.dom().contains("APPIMAGE"@) {
            Package::AppImage
        } else {
            Package::Native
        },
        version,
        dbus_name: identifier + ".SingleInstance"@,
        pid,
        tier: 0,
        episode: None,
        frozen: false,
        crashed: false,
    }
}

/// Whether the user has set one of the variables that the profiles use. What an
/// AppImage finds in `GDK_BACKEND` is not the user's.
pub open spec fn configured(env: Map<Seq<char>, Seq<char>>) -> bool {
    ||| env.dom().contains("WEBKIT_DMABUF_RENDERER_FORCE_SHM"@)
    ||| env.dom().contains("WEBKIT_DISABLE_DMABUF_RENDERER"@)
    ||| env.dom().contains("WEBKIT_SKIA_ENABLE_CPU_RENDERING"@)
    ||| env.dom().contains("WEBKIT_DISABLE_COMPOSITING_MODE"@)
    ||| env.dom().contains("GDK_BACKEND"@) && !env.dom().contains("APPIMAGE"@)
}

/// No flag at all.
pub open spec fn no_flags() -> Flags {
    Flags { safe_rendering: false, reset_rendering_mode: false }
}

/// The user's variables are those that the package owns.
pub proof fn lemma_configured(
    identifier: Seq<char>,
    version: Seq<char>,
    env: Map<Seq<char>, Seq<char>>,
    pid: u32,
)
    ensures
        launched(identifier, version, env, pid) == newcomer(identifier, version, env, pid),
        configured(env) <==> present_in(
            launched(identifier, version, env, pid).package.owned(),
            env,
        ).len() > 0,
{
    let owned = launched(identifier, version, env, pid).package.owned();
    presence_opts_out(owned, env);
    assert(owned[0] == "WEBKIT_DMABUF_RENDERER_FORCE_SHM"@);
    assert(owned[1] == "WEBKIT_DISABLE_DMABUF_RENDERER"@);
    assert(owned[2] == "WEBKIT_SKIA_ENABLE_CPU_RENDERING"@);
    assert(owned[3] == "WEBKIT_DISABLE_COMPOSITING_MODE"@);
    if env.dom().contains("APPIMAGE"@) {
        assert(owned.len() == 4);
    } else {
        assert(owned.len() == 5 && owned[4] == "GDK_BACKEND"@);
    }
}

/// Whether the child that `record` names is running, by what a launch was told
/// first: before it has taken the name it is known by its pid, from then on by
/// its connection to the bus.
pub open spec fn lives(record: Record<Seq<char>>, story: Story) -> bool {
    match story.first_sight {
        Some(Observation::Owned(owner)) => match record.phase {
            Phase::Started => record.pid is Some && record.pid == owner.pid,
            Phase::Owned | Phase::Confirmed => {
                &&& record.unique_name == Some(owner.unique_name)
                &&& record.bus_id is Some && record.bus_id == story.bus
            },
            _ => false,
        },
        Some(Observation::Free) => record.phase is Started && record.pid is Some && story.alive,
        _ => false,
    }
}

/// Whether `record` is an attempt that came to nothing: its retry went unclaimed,
/// or its child is gone.
pub open spec fn failed(record: Record<Seq<char>>, story: Story) -> bool {
    match record.phase {
        Phase::Prepared => record.generation > 0,
        Phase::Started | Phase::Owned => !lives(record, story),
        _ => false,
    }
}

/// The child that a launch which finds `record` sends in its place, if any: the
/// retry of an unclaimed attempt, a tier that started cleanly, or the next tier
/// after one that failed.
pub open spec fn sent(
    session: Session<Seq<char>>,
    record: Record<Seq<char>>,
    story: Story,
) -> Option<Plan> {
    if record.version != session.version {
        None
    } else if record.phase is Prepared && record.generation == 0 {
        let episode = Episode { token: record.token, generation: 1 };
        Some(Plan { parent: session, tier: record.tier, episode: Some(episode), live: false })
    } else if record.phase is Confirmed && !lives(record, story) && record.tier > 0 {
        Some(Plan { parent: session, tier: record.tier, episode: story.minted, live: false })
    } else if failed(record, story) && record.tier < last_rung(session.package) {
        let next = (record.tier + 1) as usize;
        Some(Plan { parent: session, tier: next, episode: story.minted, live: false })
    } else {
        None
    }
}

/// Whether a launch has found out all there is to know about `record`: who owns
/// the name, which bus said so, and, if the child has started but owns no name,
/// whether it is running.
pub open spec fn informed(
    session: Session<Seq<char>>,
    record: Record<Seq<char>>,
    story: Story,
) -> bool {
    &&& story.first_sight is Some && story.greeted
    &&& record.version == session.version && record.phase is Started && record.pid is Some
        && story.first_sight == Some(Observation::<Seq<char>>::Free) ==> story.probed == record.pid
}

/// Whether `record` is what a task read first, if it has read at all.
pub open spec fn finds(story: Story, record: Option<Record<Seq<char>>>) -> bool {
    story.first_read is None || story.first_read == Some(record)
}

/// The launch that stays because its child could not be sent.
pub open spec fn stayed(session: Session<Seq<char>>) -> Session<Seq<char>> {
    Session { tier: 0, frozen: true, ..session }
}

spec fn unmoved(story: Story) -> bool {
    &&& untouched(story) && story.spawned == 0 && !story.released && !story.located && !hindered(
        story,
    )
}

spec fn gathering(session: Session<Seq<char>>, own: Session<Seq<char>>, story: Story) -> bool {
    &&& own == session && unmoved(story) && !story.alive
    &&& story.minted is None && story.probed is None
}

/// Whether a turn of a launch that finds `record` is the one it should take.
spec fn reconciling(
    turn: BootModel,
    session: Session<Seq<char>>,
    record: Record<Seq<char>>,
    story: Story,
) -> bool {
    let plan = sent(session, record, story);
    let stopped = Session { tier: record.tier, frozen: true, ..session };
    &&& !(turn matches Turn::Ask(Booting::Read(_))) ==> story.first_read == Some(Some(record))
    &&& match turn {
        Turn::Ask(Booting::Read(own)) => gathering(session, own, story) && story.first_sight
            is None && story.first_read is None,
        Turn::Ask(Booting::Observe(own, found)) => gathering(session, own, story) && found
            == record && story.first_sight is None,
        Turn::Ask(Booting::BusId(own, found, observation)) => gathering(session, own, story)
            && found == record && story.first_sight == Some(observation),
        Turn::Ask(Booting::Probe(own, found, observation, bus, pid)) => {
            &&& gathering(session, own, story) && found == record
            &&& story.first_sight == Some(observation) && story.bus == bus && story.greeted
            &&& record.phase is Started && record.pid == Some(pid) && observation is Free
        },
        Turn::Ask(Booting::DiscardLock(own)) => own == session && record.version != session.version
            && unmoved(story) && informed(session, record, story),
        Turn::Ask(Booting::DiscardClear(own)) => own == session && record.version
            != session.version && unmoved(story) && informed(session, record, story),
        Turn::Ask(Booting::DiscardUnlock(own)) => own == session && record.version
            != session.version && story.disk is None && story.spawned == 0 && !story.denied
            && informed(session, record, story),
        Turn::Ask(Booting::Mint(own)) => {
            &&& plan matches Some(plan) && own == (Session { tier: plan.tier, ..session })
            &&& !(record.phase is Prepared && record.generation == 0)
            &&& unmoved(story) && informed(session, record, story)
        },
        Turn::Ask(Booting::HandOff(own, task)) => {
            &&& plan matches Some(plan) && plan.episode is Some && own == (Session {
                tier: plan.tier,
                ..session
            }) && handing(task, plan, story)
            &&& informed(session, record, story)
        },
        Turn::Ask(Booting::ExhaustMint(own)) => {
            &&& own == stopped && unmoved(story) && informed(session, record, story)
            &&& record.version == session.version && failed(record, story)
            &&& record.tier >= last_rung(session.package)
        },
        Turn::Ask(Booting::Exhaust(own, task)) => {
            &&& own == stopped && exhausting(task, stopped, story.minted, story)
            &&& informed(session, record, story)
            &&& record.version == session.version && failed(record, story)
            &&& record.tier >= last_rung(session.package)
        },
        Turn::Done(boot) => settled_as(boot, session, record, story) && informed(
            session,
            record,
            story,
        ),
        _ => false,
    }
}

/// Whether `boot` is what a launch that finds `record` should come to.
pub open spec fn settled_as(
    boot: Boot<Seq<char>, Seq<Seq<char>>>,
    session: Session<Seq<char>>,
    record: Record<Seq<char>>,
    story: Story,
) -> bool {
    if record.version != session.version {
        &&& boot == Boot::<Seq<char>, Seq<Seq<char>>>::Run(session)
        &&& story.spawned == 0
        &&& if story.denied {
            story.disk == story.base
        } else {
            story.disk is None
        }
    } else {
        match sent(session, record, story) {
            Some(plan) => if plan.tier <= last_rung(session.package) && !hindered(story) {
                boot is HandedOff && plan.launched(story) && plan.episode is Some
            } else {
                &&& boot == Boot::<Seq<char>, Seq<Seq<char>>>::Run(stayed(session))
                &&& story.spawned == 0
                &&& story.alone && !story.stuck ==> story.disk == story.base
            },
            None => if failed(record, story) {
                let stopped = Session { tier: record.tier, frozen: true, ..session };
                &&& boot == Boot::<Seq<char>, Seq<Seq<char>>>::Run(stopped)
                &&& ladder_ended(stopped, story.minted, story)
            } else {
                &&& boot == Boot::<Seq<char>, Seq<Seq<char>>>::Run(
                    Session { frozen: record.phase is Exhausted, ..session },
                )
                &&& story.disk == story.base && story.spawned == 0
            },
        }
    }
}

/// What a launch does once it knows all it will know.
#[verifier::rlimit(40)]
proof fn lemma_acts(
    session: Session<Seq<char>>,
    record: Record<Seq<char>>,
    observation: Observation<Seq<char>>,
    story: Story,
)
    requires
        session.tier == 0,
        session.episode is None,
        !session.frozen,
        unmoved(story),
        story.minted is None,
        story.first_sight == Some(observation),
        story.first_read == Some(Some(record)),
        informed(session, record, story),
    ensures
        reconciling(
            session.acts_on(
                record,
                decision(record, observation, story.bus, session.version, story.alive),
            ),
            session,
            record,
            story,
        ),
{
}

#[verifier::spinoff_prover]
#[verifier::rlimit(80)]
proof fn lemma_reconciling_step(
    task: Booting<Seq<char>>,
    session: Session<Seq<char>>,
    record: Record<Seq<char>>,
    story: Story,
    reply: Reply<Seq<char>>,
)
    requires
        session.tier == 0,
        session.episode is None,
        !session.frozen,
        reconciling(Turn::Ask(task), session, record, story),
    ensures
        ({
            let after = told(story, task.asks(), reply);
            finds(after, Some(record)) ==> reconciling(task.next(reply), session, record, after)
        }),
{
    let after = told(story, task.asks(), reply);
    match task {
        Booting::BusId(_, _, observation) => {
            if reply is Bus && doubtful_pid(record, observation, session.version) is None {
                lemma_acts(session, record, observation, after);
            }
        },
        Booting::Probe(_, _, observation, _, _) => {
            if reply is Alive {
                lemma_acts(session, record, observation, after);
            }
        },
        Booting::HandOff(_, hand_off) => {
            lemma_handing_step(hand_off, sent(session, record, story)->0, story, reply);
        },
        Booting::Exhaust(own, task) => {
            lemma_exhausting_step(task, own, story.minted, story, reply);
        },
        _ => {},
    }
}

#[verifier::rlimit(40)]
proof fn lemma_reconciling(
    session: Session<Seq<char>>,
    record: Record<Seq<char>>,
    base: Option<Record<Seq<char>>>,
    replies: Seq<Reply<Seq<char>>>,
)
    requires
        session.tier == 0,
        session.episode is None,
        !session.frozen,
    ensures
        ({
            let start = TaskModel::Ask(Task::Boot(Booting::Read(session)));
            let (turn, story) = run(start, base, replies);
            &&& story.base == base
            &&& finds(story, Some(record)) ==> match turn {
                Turn::Ask(Task::Boot(task)) => reconciling(
                    Turn::Ask(task),
                    session,
                    record,
                    story,
                ),
                Turn::Done(Outcome::Booted(boot)) => reconciling(
                    Turn::Done(boot),
                    session,
                    record,
                    story,
                ),
                _ => false,
            }
        }),
    decreases replies.len(),
{
    let start = TaskModel::Ask(Task::Boot(Booting::Read(session)));
    if replies.len() > 0 {
        let before = replies.drop_last();
        lemma_reconciling(session, record, base, before);
        let (turn, story) = run(start, base, before);
        if let Turn::Ask(Task::Boot(task)) = turn {
            if finds(story, Some(record)) {
                lemma_reconciling_step(task, session, record, story, replies.last());
            }
        }
    }
}

/// An untagged launch in an environment that the user has not configured.
pub open spec fn ordinary(env: Map<Seq<char>, Seq<char>>) -> bool {
    tag_in(env) is None && !configured(env)
}

/// A whole launch, as far as its replies take it.
pub open spec fn launch(
    identifier: Seq<char>,
    version: Seq<char>,
    flags: Flags,
    env: Map<Seq<char>, Seq<char>>,
    pid: u32,
    base: Option<Record<Seq<char>>>,
    replies: Seq<Reply<Seq<char>>>,
) -> (TaskModel, Story) {
    run(booting(reconciled(Ok(()), identifier, version, flags, env, pid)), base, replies)
}

/// Whether `request` only looks: at the record, at this app's name, at the bus,
/// or at the child of an attempt that has started.
pub open spec fn looks(
    session: Session<Seq<char>>,
    record: Record<Seq<char>>,
    request: Request<Seq<char>>,
) -> bool {
    match request {
        Request::Read | Request::BusId => true,
        Request::Observe { name } => name == session.dbus_name,
        Request::Probe { pid } => record.phase is Started && record.pid == Some(pid),
        _ => false,
    }
}

/// Whether this is the outcome of a launch that runs on as `session`.
pub open spec fn runs(
    outcome: Outcome<Seq<char>, Seq<Seq<char>>>,
    session: Session<Seq<char>>,
) -> bool {
    outcome == Outcome::Booted(Boot::<Seq<char>, Seq<Seq<char>>>::Run(session))
}

/// Whether a launch came to what it should by the child it had planned.
pub open spec fn went_as_planned(
    outcome: Outcome<Seq<char>, Seq<Seq<char>>>,
    plan: Plan,
    story: Story,
) -> bool {
    if plan.tier <= last_rung(plan.parent.package) && !hindered(story) {
        &&& outcome == Outcome::Booted(Boot::<Seq<char>, Seq<Seq<char>>>::HandedOff)
        &&& plan.launched(story) && plan.episode is Some
    } else {
        &&& runs(outcome, stayed(plan.parent))
        &&& story.spawned == 0 && (story.alone && !story.stuck ==> story.disk == story.base)
    }
}

#[verifier::rlimit(40)]
proof fn lemma_launch(
    identifier: Seq<char>,
    version: Seq<char>,
    env: Map<Seq<char>, Seq<char>>,
    pid: u32,
    record: Record<Seq<char>>,
    base: Option<Record<Seq<char>>>,
    replies: Seq<Reply<Seq<char>>>,
)
    requires
        ordinary(env),
    ensures
        ({
            let session = newcomer(identifier, version, env, pid);
            let (turn, story) = launch(
                identifier,
                version,
                no_flags(),
                env,
                pid,
                base,
                replies,
            );
            &&& story.base == base
            &&& finds(story, Some(record)) ==> match turn {
                Turn::Ask(task) => looks(session, record, task.asks()) || (if record.version
                    != version {
                    task.asks() is Lock || task.asks() is Clear || task.asks() is Unlock
                } else {
                    match sent(session, record, story) {
                        Some(plan) => plan.allows(task.asks(), story),
                        None => failed(record, story) && ends_only(
                            Session { tier: record.tier, frozen: true, ..session },
                            story.minted,
                            task.asks(),
                        ),
                    }
                }),
                Turn::Done(outcome) => outcome matches Outcome::Booted(boot) && settled_as(
                    boot,
                    session,
                    record,
                    story,
                ) && informed(session, record, story),
            }
        }),
{
    let session = newcomer(identifier, version, env, pid);
    lemma_configured(identifier, version, env, pid);
    lemma_reconciling(session, record, base, replies);
    let (turn, story) = launch(identifier, version, no_flags(), env, pid, base, replies);
    if finds(story, Some(record)) {
        match turn {
            Turn::Ask(Task::Boot(Booting::HandOff(_, task))) => {
                lemma_handing_step(task, sent(session, record, story)->0, story, Reply::Done);
            },
            Turn::Ask(Task::Boot(Booting::Exhaust(own, task))) => {
                lemma_exhausting_step(task, own, story.minted, story, Reply::Done);
            },
            _ => {},
        }
    }
}

/// A profile does not survive an upgrade. A launch that finds a record of another
/// version, whatever its phase and tier, runs here at the fastest tier, free to
/// move. It writes nothing and spawns nobody, and unless the lock failed, it leaves
/// no record behind.
pub proof fn an_upgrade_starts_over(
    identifier: Seq<char>,
    version: Seq<char>,
    env: Map<Seq<char>, Seq<char>>,
    pid: u32,
    record: Record<Seq<char>>,
    base: Option<Record<Seq<char>>>,
    replies: Seq<Reply<Seq<char>>>,
)
    requires
        ordinary(env),
        record.version != version,
    ensures
        ({
            let session = newcomer(identifier, version, env, pid);
            let (turn, story) = launch(
                identifier,
                version,
                no_flags(),
                env,
                pid,
                base,
                replies,
            );
            finds(story, Some(record)) ==> match turn {
                Turn::Ask(task) => looks(session, record, task.asks()) || task.asks() is Lock
                    || task.asks() is Clear || task.asks() is Unlock,
                Turn::Done(outcome) => {
                    &&& runs(outcome, session) && story.spawned == 0
                    &&& if story.denied {
                        story.disk == base
                    } else {
                        story.disk is None
                    }
                },
            }
        }),
{
    lemma_launch(identifier, version, env, pid, record, base, replies);
}

/// The sole retry of an attempt.
pub open spec fn again(session: Session<Seq<char>>, record: Record<Seq<char>>) -> Plan {
    let episode = Episode { token: record.token, generation: 1 };
    Plan { parent: session, tier: record.tier, episode: Some(episode), live: false }
}

/// A new attempt at `tier`.
pub open spec fn at_tier(session: Session<Seq<char>>, tier: usize, story: Story) -> Plan {
    Plan { parent: session, tier, episode: story.minted, live: false }
}

/// A new attempt one tier below a failed one.
pub open spec fn below(
    session: Session<Seq<char>>,
    record: Record<Seq<char>>,
    story: Story,
) -> Plan {
    at_tier(session, (record.tier + 1) as usize, story)
}

/// An attempt that nobody claimed is tried once more at the same tier: under the
/// same token, as generation one.
pub proof fn an_unclaimed_attempt_is_tried_again(
    identifier: Seq<char>,
    version: Seq<char>,
    env: Map<Seq<char>, Seq<char>>,
    pid: u32,
    record: Record<Seq<char>>,
    base: Option<Record<Seq<char>>>,
    replies: Seq<Reply<Seq<char>>>,
)
    requires
        ordinary(env),
        record.version == version,
        record.phase is Prepared,
        record.generation == 0,
    ensures
        ({
            let session = newcomer(identifier, version, env, pid);
            let (turn, story) = launch(
                identifier,
                version,
                no_flags(),
                env,
                pid,
                base,
                replies,
            );
            finds(story, Some(record)) ==> match turn {
                Turn::Ask(task) => looks(session, record, task.asks()) || again(
                    session,
                    record,
                ).allows(task.asks(), story),
                Turn::Done(outcome) => went_as_planned(outcome, again(session, record), story),
            }
        }),
{
    lemma_launch(identifier, version, env, pid, record, base, replies);
}

/// A failed attempt moves the ladder exactly one rung down: the launch that finds
/// it sends a child at the next tier, under a new episode.
pub proof fn a_failed_attempt_steps_down_one_rung(
    identifier: Seq<char>,
    version: Seq<char>,
    env: Map<Seq<char>, Seq<char>>,
    pid: u32,
    record: Record<Seq<char>>,
    base: Option<Record<Seq<char>>>,
    replies: Seq<Reply<Seq<char>>>,
)
    requires
        ordinary(env),
        record.version == version,
        record.tier < last_rung(newcomer(identifier, version, env, pid).package),
    ensures
        ({
            let session = newcomer(identifier, version, env, pid);
            let (turn, story) = launch(
                identifier,
                version,
                no_flags(),
                env,
                pid,
                base,
                replies,
            );
            finds(story, Some(record)) ==> match turn {
                Turn::Ask(task) => looks(session, record, task.asks()) || (failed(record, story)
                    ==> below(session, record, story).allows(task.asks(), story)),
                Turn::Done(outcome) => failed(record, story) ==> went_as_planned(
                    outcome,
                    below(session, record, story),
                    story,
                ),
            }
        }),
{
    lemma_launch(identifier, version, env, pid, record, base, replies);
}

/// A failed attempt at the safest rung ends the ladder: the launch that finds it
/// spawns nobody, writes down that the ladder is spent, and runs on frozen.
pub proof fn a_failed_attempt_at_the_safest_rung_spends_the_ladder(
    identifier: Seq<char>,
    version: Seq<char>,
    env: Map<Seq<char>, Seq<char>>,
    pid: u32,
    record: Record<Seq<char>>,
    base: Option<Record<Seq<char>>>,
    replies: Seq<Reply<Seq<char>>>,
)
    requires
        ordinary(env),
        record.version == version,
        record.tier >= last_rung(newcomer(identifier, version, env, pid).package),
    ensures
        ({
            let session = newcomer(identifier, version, env, pid);
            let (turn, story) = launch(
                identifier,
                version,
                no_flags(),
                env,
                pid,
                base,
                replies,
            );
            finds(story, Some(record)) ==> match turn {
                Turn::Ask(task) => looks(session, record, task.asks()) || (failed(record, story)
                    ==> ends_only(
                    Session { tier: record.tier, frozen: true, ..session },
                    story.minted,
                    task.asks(),
                )),
                Turn::Done(outcome) => failed(record, story) ==> {
                    let stopped = Session { tier: record.tier, frozen: true, ..session };
                    runs(outcome, stopped) && ladder_ended(stopped, story.minted, story)
                },
            }
        }),
{
    lemma_launch(identifier, version, env, pid, record, base, replies);
}

/// A tier that started cleanly is run again: here if it is the fastest one, and
/// otherwise by a child at that tier, under a new episode. This holds unless the
/// instance that started cleanly is still running.
pub proof fn a_clean_tier_is_run_again(
    identifier: Seq<char>,
    version: Seq<char>,
    env: Map<Seq<char>, Seq<char>>,
    pid: u32,
    record: Record<Seq<char>>,
    base: Option<Record<Seq<char>>>,
    replies: Seq<Reply<Seq<char>>>,
)
    requires
        ordinary(env),
        record.version == version,
        record.phase is Confirmed,
    ensures
        ({
            let session = newcomer(identifier, version, env, pid);
            let (turn, story) = launch(
                identifier,
                version,
                no_flags(),
                env,
                pid,
                base,
                replies,
            );
            finds(story, Some(record)) ==> match turn {
                Turn::Ask(task) => looks(session, record, task.asks()) || (!lives(record, story)
                    && record.tier > 0 && at_tier(session, record.tier, story).allows(
                    task.asks(),
                    story,
                )),
                Turn::Done(outcome) => !lives(record, story) ==> if record.tier == 0 {
                    runs(outcome, session) && story.disk == base && story.spawned == 0
                } else {
                    went_as_planned(outcome, at_tier(session, record.tier, story), story)
                },
            }
        }),
{
    lemma_launch(identifier, version, env, pid, record, base, replies);
}

/// A live instance is left alone: a launch that finds the child of a record
/// running only looks, changes nothing, and runs as the duplicate it is.
pub proof fn a_live_instance_is_left_alone(
    identifier: Seq<char>,
    version: Seq<char>,
    env: Map<Seq<char>, Seq<char>>,
    pid: u32,
    record: Record<Seq<char>>,
    base: Option<Record<Seq<char>>>,
    replies: Seq<Reply<Seq<char>>>,
)
    requires
        ordinary(env),
        record.version == version,
    ensures
        ({
            let session = newcomer(identifier, version, env, pid);
            let (turn, story) = launch(
                identifier,
                version,
                no_flags(),
                env,
                pid,
                base,
                replies,
            );
            finds(story, Some(record)) ==> match turn {
                Turn::Ask(task) => lives(record, story) && !(record.phase is Prepared) ==> looks(
                    session,
                    record,
                    task.asks(),
                ),
                Turn::Done(outcome) => lives(record, story) ==> {
                    runs(outcome, session) && story.disk == base && story.spawned == 0
                },
            }
        }),
{
    lemma_launch(identifier, version, env, pid, record, base, replies);
}

/// A spent ladder stays spent: a launch that finds one only looks, changes nothing
/// and runs on frozen at the fastest tier.
pub proof fn a_spent_ladder_stays_spent(
    identifier: Seq<char>,
    version: Seq<char>,
    env: Map<Seq<char>, Seq<char>>,
    pid: u32,
    record: Record<Seq<char>>,
    base: Option<Record<Seq<char>>>,
    replies: Seq<Reply<Seq<char>>>,
)
    requires
        ordinary(env),
        record.version == version,
        record.phase is Exhausted,
    ensures
        ({
            let session = newcomer(identifier, version, env, pid);
            let (turn, story) = launch(
                identifier,
                version,
                no_flags(),
                env,
                pid,
                base,
                replies,
            );
            finds(story, Some(record)) ==> match turn {
                Turn::Ask(task) => looks(session, record, task.asks()),
                Turn::Done(outcome) => {
                    &&& runs(outcome, Session { frozen: true, ..session })
                    &&& story.disk == base && story.spawned == 0
                },
            }
        }),
{
    lemma_launch(identifier, version, env, pid, record, base, replies);
}

/// No launch decides about a record unseen: before it has come to its end, or
/// asks to change anything, it has looked at the name and the bus, and after the
/// child of a started attempt if nobody owns the name.
pub proof fn nothing_is_decided_unseen(
    identifier: Seq<char>,
    version: Seq<char>,
    env: Map<Seq<char>, Seq<char>>,
    pid: u32,
    record: Record<Seq<char>>,
    base: Option<Record<Seq<char>>>,
    replies: Seq<Reply<Seq<char>>>,
)
    requires
        ordinary(env),
    ensures
        ({
            let session = newcomer(identifier, version, env, pid);
            let (turn, story) = launch(
                identifier,
                version,
                no_flags(),
                env,
                pid,
                base,
                replies,
            );
            finds(story, Some(record)) ==> match turn {
                Turn::Ask(task) => looks(session, record, task.asks()) || informed(
                    session,
                    record,
                    story,
                ),
                Turn::Done(_) => informed(session, record, story),
            }
        }),
{
    lemma_configured(identifier, version, env, pid);
    lemma_reconciling(newcomer(identifier, version, env, pid), record, base, replies);
}

proof fn lemma_no_record(
    session: Session<Seq<char>>,
    base: Option<Record<Seq<char>>>,
    replies: Seq<Reply<Seq<char>>>,
)
    requires
        session.tier == 0,
    ensures
        ({
            let start = TaskModel::Ask(Task::Boot(Booting::Read(session)));
            let (turn, story) = run(start, base, replies);
            finds(story, None) ==> story.disk == base && story.spawned == 0 && match turn {
                Turn::Ask(_) => turn == start && story.first_read is None,
                Turn::Done(outcome) => runs(outcome, session),
            }
        }),
    decreases replies.len(),
{
    if replies.len() > 0 {
        lemma_no_record(session, base, replies.drop_last());
    }
}

/// A launch that finds no record looks no further: it runs here at the fastest
/// tier, free to move, and writes nothing.
pub proof fn a_launch_without_a_record_runs_here(
    identifier: Seq<char>,
    version: Seq<char>,
    env: Map<Seq<char>, Seq<char>>,
    pid: u32,
    base: Option<Record<Seq<char>>>,
    replies: Seq<Reply<Seq<char>>>,
)
    requires
        ordinary(env),
    ensures
        ({
            let session = newcomer(identifier, version, env, pid);
            let (turn, story) = launch(identifier, version, no_flags(), env, pid, base, replies);
            finds(story, None) ==> match turn {
                Turn::Ask(task) => task.asks() is Read,
                Turn::Done(outcome) => runs(outcome, session) && story.disk == base
                    && story.spawned == 0,
            }
        }),
{
    lemma_configured(identifier, version, env, pid);
    lemma_no_record(newcomer(identifier, version, env, pid), base, replies);
}

// ── Flags ───────────────────────────────────────────────────────────────────

/// The child of `--safe-rendering`: at the safest rung, without an episode.
pub open spec fn rescue(session: Session<Seq<char>>) -> Plan {
    Plan { parent: session, tier: last_rung(session.package), episode: None, live: false }
}

spec fn rescuing(turn: TaskModel, session: Session<Seq<char>>, story: Story) -> bool {
    let plan = rescue(session);
    match turn {
        Turn::Ask(Task::Boot(Booting::HandOff(own, task))) => {
            &&& own == (Session { tier: plan.tier, frozen: true, ..session })
            &&& handing(task, plan, story)
            &&& task.stage is Binary || task.stage is Observe || task.stage is Spawn
        },
        Turn::Done(outcome) => {
            ||| plan.launched(story) && outcome == Outcome::Booted(
                Boot::<Seq<char>, Seq<Seq<char>>>::HandedOff,
            )
            ||| plan.refused(story) && runs(outcome, stayed(session))
        },
        _ => false,
    }
}

#[verifier::rlimit(40)]
proof fn lemma_rescuing(
    start: TaskModel,
    session: Session<Seq<char>>,
    base: Option<Record<Seq<char>>>,
    replies: Seq<Reply<Seq<char>>>,
)
    requires
        rescuing(start, session, outset(base)),
    ensures
        rescuing(run(start, base, replies).0, session, run(start, base, replies).1),
        run(start, base, replies).1.base == base,
    decreases replies.len(),
{
    if replies.len() > 0 {
        let before = replies.drop_last();
        lemma_rescuing(start, session, base, before);
        let (turn, story) = run(start, base, before);
        if let Turn::Ask(Task::Boot(Booting::HandOff(_, task))) = turn {
            lemma_handing_step(task, rescue(session), story, replies.last());
        }
    }
}

/// `--safe-rendering` forces the safest profile of the package, for this launch
/// only. Whatever is on disk, an ordinary launch with the flag asks for nothing
/// but the binary, the name and a child at the last rung without an episode. If
/// nothing stands in the way the child is launched; otherwise the launch stays
/// here frozen. The record is as it was.
pub proof fn safe_rendering_runs_the_safest_rung(
    identifier: Seq<char>,
    version: Seq<char>,
    flags: Flags,
    env: Map<Seq<char>, Seq<char>>,
    pid: u32,
    base: Option<Record<Seq<char>>>,
    replies: Seq<Reply<Seq<char>>>,
)
    requires
        flags.safe_rendering,
        !flags.reset_rendering_mode,
        ordinary(env),
    ensures
        ({
            let session = newcomer(identifier, version, env, pid);
            let (turn, story) = launch(identifier, version, flags, env, pid, base, replies);
            &&& story.disk == base
            &&& match turn {
                Turn::Ask(task) => match task.asks() {
                    Request::Binary => true,
                    Request::Observe { name } => name == session.dbus_name,
                    Request::Spawn { package, tier, tag } => {
                        &&& package == session.package && tier == last_rung(session.package)
                        &&& tag.episode is None && tag.profile == tier_name(tier as int)
                    },
                    _ => false,
                },
                Turn::Done(outcome) => if hindered(story) {
                    runs(outcome, stayed(session)) && story.spawned == 0
                } else {
                    &&& outcome == Outcome::Booted(Boot::<Seq<char>, Seq<Seq<char>>>::HandedOff)
                    &&& rescue(session).launched(story)
                },
            }
        }),
{
    let session = newcomer(identifier, version, env, pid);
    lemma_configured(identifier, version, env, pid);
    let start = booting(reconciled(Ok(()), identifier, version, flags, env, pid));
    lemma_rescuing(start, session, base, replies);
}

spec fn resetting(turn: TaskModel, story: Story) -> bool {
    match turn {
        Turn::Ask(Task::Boot(Booting::ResetLock)) => story.disk == story.base && !story.denied,
        Turn::Ask(Task::Boot(Booting::ResetClear)) => story.disk == story.base && !story.denied,
        Turn::Ask(Task::Boot(Booting::ResetUnlock { cleared })) => story.disk is None
            && story.cleared == Some(cleared) && !story.denied,
        Turn::Done(Outcome::Booted(Boot::Reset { cleared })) => story.disk is None && story.cleared
            == Some(cleared) && !story.denied,
        Turn::Done(Outcome::Booted(Boot::Fatal(text))) => {
            &&& story.denied && story.disk == story.base
            &&& story.fault matches Some(fault) && text == "could not clear renderer state: "@
                + fault
        },
        _ => false,
    }
}

/// `--reset-rendering-mode` deletes the state and never starts the app, whatever
/// else the environment and the other flag say. It reports whether there was
/// anything to delete. Without the lock it deletes nothing and says why.
pub proof fn a_reset_clears_the_state_and_exits(
    identifier: Seq<char>,
    version: Seq<char>,
    flags: Flags,
    env: Map<Seq<char>, Seq<char>>,
    pid: u32,
    base: Option<Record<Seq<char>>>,
    replies: Seq<Reply<Seq<char>>>,
)
    requires
        flags.reset_rendering_mode,
    ensures
        ({
            let (turn, story) = launch(identifier, version, flags, env, pid, base, replies);
            &&& story.spawned == 0 && story.durable is None && story.base == base
            &&& match turn {
                Turn::Ask(task) => task.asks() is Lock || task.asks() is Clear || task.asks()
                    is Unlock,
                Turn::Done(outcome) => {
                    &&& outcome matches Outcome::Booted(boot)
                    &&& if story.denied {
                        &&& story.disk == base
                        &&& boot matches Boot::Fatal(text) && story.fault matches Some(fault)
                            && text == "could not clear renderer state: "@ + fault
                    } else {
                        &&& story.disk is None
                        &&& boot matches Boot::Reset { cleared } && story.cleared == Some(cleared)
                    }
                },
            }
        }),
{
    lemma_resetting(base, replies);
}

proof fn lemma_resetting(base: Option<Record<Seq<char>>>, replies: Seq<Reply<Seq<char>>>)
    ensures
        ({
            let (turn, story) = run(
                TaskModel::Ask(Task::Boot(Booting::ResetLock)),
                base,
                replies,
            );
            &&& resetting(turn, story)
            &&& story.spawned == 0 && story.durable is None && story.base == base
        }),
    decreases replies.len(),
{
    if replies.len() > 0 {
        lemma_resetting(base, replies.drop_last());
    }
}

/// Without a place for durable state recovery is off and says why, whatever else
/// there is.
pub proof fn recovery_is_off_without_a_state_directory(
    error: Seq<char>,
    identifier: Seq<char>,
    version: Seq<char>,
    flags: Flags,
    env: Map<Seq<char>, Seq<char>>,
    pid: u32,
)
    ensures
        reconciled(Err(error), identifier, version, flags, env, pid) == BootModel::Done(
            Boot::Off(Disabled::NoStateDir(error)),
        ),
{
}

/// The assignment of `key`, if the environment makes one.
pub open spec fn line_of(env: Map<Seq<char>, Seq<char>>, key: Seq<char>) -> Seq<Seq<char>> {
    if env.dom().contains(key) {
        seq![key + seq!['='] + env[key]]
    } else {
        seq![]
    }
}

/// What the user has set of the variables that the profiles use.
pub open spec fn user_lines(env: Map<Seq<char>, Seq<char>>) -> Seq<Seq<char>> {
    line_of(env, "WEBKIT_DMABUF_RENDERER_FORCE_SHM"@) + line_of(
        env,
        "WEBKIT_DISABLE_DMABUF_RENDERER"@,
    ) + line_of(env, "WEBKIT_SKIA_ENABLE_CPU_RENDERING"@) + line_of(
        env,
        "WEBKIT_DISABLE_COMPOSITING_MODE"@,
    ) + (if env.dom().contains("APPIMAGE"@) {
        seq![]
    } else {
        line_of(env, "GDK_BACKEND"@)
    })
}

proof fn lemma_user_lines(env: Map<Seq<char>, Seq<char>>)
    ensures
        present_in(package_in(env).owned(), env) == user_lines(env),
{
    reveal_strlit("=");
    assert("="@ =~= seq!['=']);
    let owned = package_in(env).owned();
    assert(owned.take(owned.len() as int) =~= owned);
    assert(owned.take(4).drop_last() =~= owned.take(3));
    assert(owned.take(3).drop_last() =~= owned.take(2));
    assert(owned.take(2).drop_last() =~= owned.take(1));
    assert(owned.take(1).drop_last() =~= owned.take(0));
    let one = line_of(env, owned[0]);
    assert(present_in(owned.take(0), env) =~= seq![]);
    assert(present_in(owned.take(1), env) =~= one);
    let two = one + line_of(env, owned[1]);
    assert(present_in(owned.take(2), env) =~= two);
    let three = two + line_of(env, owned[2]);
    assert(present_in(owned.take(3), env) =~= three);
    let four = three + line_of(env, owned[3]);
    assert(present_in(owned.take(4), env) =~= four);
    if env.dom().contains("APPIMAGE"@) {
        assert(user_lines(env) =~= four);
    } else {
        assert(owned.take(5).drop_last() =~= owned.take(4));
        assert(present_in(owned.take(5), env) =~= four + line_of(env, owned[4]));
    }
}

/// What the user has configured wins whole: an untagged launch with such a
/// variable set runs with recovery off and says which ones are set, and with
/// `--safe-rendering` it says so and does not run. Without one, recovery is never
/// off.
pub proof fn what_the_user_set_is_left_alone(
    identifier: Seq<char>,
    version: Seq<char>,
    flags: Flags,
    env: Map<Seq<char>, Seq<char>>,
    pid: u32,
)
    requires
        tag_in(env) is None,
        !flags.reset_rendering_mode,
    ensures
        ({
            let start = reconciled(Ok(()), identifier, version, flags, env, pid);
            let lines = user_lines(env);
            &&& configured(env) <==> lines.len() > 0
            &&& configured(env) && !flags.safe_rendering ==> start == BootModel::Done(
                Boot::Off(Disabled::UserEnv(lines)),
            )
            &&& configured(env) && flags.safe_rendering ==> start == BootModel::Done(
                Boot::Fatal(conflict(lines)),
            )
            &&& !configured(env) ==> start is Ask
        }),
{
    lemma_configured(identifier, version, env, pid);
    lemma_user_lines(env);
}

// ── Children ────────────────────────────────────────────────────────────────

/// A tag is read from four variables, whole or not at all: a profile, and either
/// the mark of a forced launch, or a token that is not empty with a generation
/// that is a number.
pub proof fn a_tag_is_read_whole(env: Map<Seq<char>, Seq<char>>)
    ensures
        ({
            let profile = "BUZZ_RENDER_PROFILE"@;
            let token = "BUZZ_RENDER_EPISODE"@;
            let generation = "BUZZ_RENDER_GENERATION"@;
            let forced = env.dom().contains("BUZZ_RENDER_FORCED"@);
            let tracked_for = env.dom().contains(token) && env[token].len() > 0
                && env.dom().contains(generation) && parsed_u32(env[generation]) is Some;
            &&& tag_in(env) is Some <==> env.dom().contains(profile) && (forced || tracked_for)
            &&& tag_in(env) matches Some(tag) ==> {
                &&& tag.profile == env[profile]
                &&& tag.episode is None <==> forced
                &&& tag.episode matches Some(episode) ==> episode.token == env[token]
                    && parsed_u32(env[generation]) == Some(episode.generation)
            }
        }),
{
}

/// A child that carries no episode runs at once, frozen: at the tier that its tag
/// names if it was forced there, and at the fastest one if its package has no tier
/// of that name.
pub proof fn a_child_without_a_known_episode_runs_frozen(
    identifier: Seq<char>,
    version: Seq<char>,
    flags: Flags,
    env: Map<Seq<char>, Seq<char>>,
    pid: u32,
    tag: Tag<Seq<char>>,
    tier: usize,
)
    requires
        tag_in(env) == Some(tag),
        !flags.reset_rendering_mode,
    ensures
        ({
            let session = newcomer(identifier, version, env, pid);
            let start = reconciled(Ok(()), identifier, version, flags, env, pid);
            &&& (forall|other: usize|
                other <= last_rung(session.package) ==> tag.profile != #[trigger] tier_name(
                    other as int,
                )) ==> start == BootModel::Done(Boot::Run(Session { frozen: true, ..session }))
            &&& tier <= last_rung(session.package) && tag.profile == tier_name(tier as int)
                && tag.episode is None ==> start == BootModel::Done(
                Boot::Run(Session { tier, frozen: true, ..session }),
            )
        }),
{
    let session = newcomer(identifier, version, env, pid);
    if tier <= last_rung(session.package) {
        rungs_are_named_apart(session.package, tier);
    }
    if forall|other: usize|
        other <= last_rung(session.package) ==> tag.profile != #[trigger] tier_name(other as int) {
        assert(tag.profile != tier_name(0usize as int));
        assert(tag.profile != tier_name(1usize as int));
        assert(tag.profile != tier_name(2usize as int));
        assert(tag.profile != tier_name(3usize as int));
        assert(session.package is Native ==> tag.profile != tier_name(4usize as int));
    }
}

/// Whether `record` is there for a child of `episode` to claim.
pub open spec fn awaits(
    record: Option<Record<Seq<char>>>,
    episode: Episode<Seq<char>>,
) -> bool {
    record matches Some(record) && record.phase is Prepared && record.token == episode.token
        && record.generation == episode.generation
}

/// What a child of `episode` that was sent to run `tier` should come to, by the
/// record it found.
pub open spec fn took_over(
    boot: Boot<Seq<char>, Seq<Seq<char>>>,
    session: Session<Seq<char>>,
    episode: Episode<Seq<char>>,
    story: Story,
) -> bool {
    let found = story.first_read->0;
    let untracked = Boot::<Seq<char>, Seq<Seq<char>>>::Run(Session { frozen: true, ..session });
    if story.denied {
        boot == untracked && story.disk == story.base
    } else if story.first_read is None {
        false
    } else if found is None {
        boot == untracked && story.disk == story.base
    } else if !awaits(found, episode) {
        boot is Superseded && story.disk == story.base
    } else {
        match story.verdict {
            Some(Claim::Won) => {
                let record = found->0;
                &&& boot == Boot::<Seq<char>, Seq<Seq<char>>>::Run(
                    Session { tier: record.tier, episode: Some(episode), ..session },
                )
                &&& story.disk == Some(
                    Record { phase: Phase::Started, pid: Some(session.pid), ..record },
                )
            },
            Some(Claim::Lost) => boot is Superseded && story.disk == story.base,
            Some(Claim::Failed(_)) => boot == untracked && story.disk == story.base,
            None => false,
        }
    }
}

spec fn claimed_as(
    claimed: Claimed<Seq<char>>,
    session: Session<Seq<char>>,
    episode: Episode<Seq<char>>,
    story: Story,
) -> bool {
    took_over(session.after_claim(claimed), session, episode, story)
}

spec fn taking_over(
    turn: TaskModel,
    session: Session<Seq<char>>,
    episode: Episode<Seq<char>>,
    story: Story,
) -> bool {
    match turn {
        Turn::Ask(Task::Boot(Booting::Claim(own, task))) => {
            &&& own == session && task.episode == episode && task.pid == session.pid
            &&& match task.stage {
                ClaimStage::Lock | ClaimStage::Read => story.disk == story.base && !story.denied
                    && story.verdict is None && story.first_read is None,
                ClaimStage::Claim(record) => {
                    &&& story.disk == story.base && !story.denied && story.verdict is None
                    &&& story.first_read == Some(Some(record)) && awaits(Some(record), episode)
                },
                ClaimStage::Write(record) => {
                    &&& story.disk == story.base && !story.denied
                    &&& story.verdict == Some(Claim::<Seq<char>>::Won)
                    &&& story.first_read == Some(Some(record)) && awaits(Some(record), episode)
                },
                ClaimStage::Unlock(claimed) => claimed_as(claimed, session, episode, story),
            }
        },
        Turn::Done(Outcome::Booted(boot)) => took_over(boot, session, episode, story),
        _ => false,
    }
}

#[verifier::rlimit(40)]
proof fn lemma_taking_over(
    session: Session<Seq<char>>,
    episode: Episode<Seq<char>>,
    base: Option<Record<Seq<char>>>,
    replies: Seq<Reply<Seq<char>>>,
)
    requires
        !session.frozen,
        session.episode is None,
    ensures
        ({
            let claiming = Claiming { episode, pid: session.pid, stage: ClaimStage::Lock };
            let start = TaskModel::Ask(Task::Boot(Booting::Claim(session, claiming)));
            let (turn, story) = run(start, base, replies);
            &&& story.base == base
            &&& taking_over(turn, session, episode, story)
        }),
    decreases replies.len(),
{
    if replies.len() > 0 {
        lemma_taking_over(session, episode, base, replies.drop_last());
    }
}

/// A tagged child takes over exactly the episode it was launched for. If the
/// prepared record of that episode is there and it wins the claim, it runs the
/// record's tier as the owner, and the record says so with its pid. If the record
/// is another episode's, or the episode is somebody else's, the child exits. In
/// every other case it runs frozen at the tier it was sent to, and the record is as
/// it was.
pub proof fn a_child_takes_over_its_own_episode(
    identifier: Seq<char>,
    version: Seq<char>,
    flags: Flags,
    env: Map<Seq<char>, Seq<char>>,
    pid: u32,
    tag: Tag<Seq<char>>,
    tier: usize,
    base: Option<Record<Seq<char>>>,
    replies: Seq<Reply<Seq<char>>>,
)
    requires
        tag_in(env) == Some(tag),
        !flags.reset_rendering_mode,
        tier <= last_rung(newcomer(identifier, version, env, pid).package),
        tag.profile == tier_name(tier as int),
        tag.episode is Some,
    ensures
        ({
            let session = Session { tier, ..newcomer(identifier, version, env, pid) };
            let episode = tag.episode->0;
            let (turn, story) = launch(identifier, version, flags, env, pid, base, replies);
            &&& story.spawned == 0
            &&& match turn {
                Turn::Ask(task) => match task.asks() {
                    Request::Lock | Request::Read | Request::Unlock => true,
                    Request::Claim(own) => own == episode && awaits(story.first_read->0, episode)
                        && story.first_read is Some,
                    Request::Write(record) => {
                        &&& story.won == Some(episode) && story.first_read is Some
                        &&& awaits(story.first_read->0, episode)
                        &&& record == (Record {
                            phase: Phase::Started,
                            pid: Some(pid),
                            ..story.first_read->0->0
                        })
                    },
                    _ => false,
                },
                Turn::Done(outcome) => outcome matches Outcome::Booted(boot) && took_over(
                    boot,
                    session,
                    episode,
                    story,
                ),
            }
        }),
{
    let session = Session { tier, ..newcomer(identifier, version, env, pid) };
    rungs_are_named_apart(session.package, tier);
    lemma_taking_over(session, tag.episode->0, base, replies);
    lemma_won(session, tag.episode->0, base, replies);
}

proof fn lemma_won(
    session: Session<Seq<char>>,
    episode: Episode<Seq<char>>,
    base: Option<Record<Seq<char>>>,
    replies: Seq<Reply<Seq<char>>>,
)
    ensures
        ({
            let claiming = Claiming { episode, pid: session.pid, stage: ClaimStage::Lock };
            let start = TaskModel::Ask(Task::Boot(Booting::Claim(session, claiming)));
            let (turn, story) = run(start, base, replies);
            story.spawned == 0 && match turn {
                Turn::Ask(Task::Boot(Booting::Claim(_, task))) => task.episode == episode && (
                task.stage is Write ==> story.won == Some(episode)),
                Turn::Ask(_) => false,
                _ => true,
            }
        }),
    decreases replies.len(),
{
    if replies.len() > 0 {
        lemma_won(session, episode, base, replies.drop_last());
    }
}

// ── Receipts ────────────────────────────────────────────────────────────────

/// Whether `record` is the record of `episode` before it has come to `phase`.
pub open spec fn precedes(
    record: Record<Seq<char>>,
    episode: Episode<Seq<char>>,
    phase: Phase,
) -> bool {
    &&& record.token == episode.token && record.generation == episode.generation
    &&& match record.phase {
        Phase::Prepared => !(phase is Prepared),
        Phase::Started => phase is Owned || phase is Confirmed || phase is Exhausted,
        Phase::Owned => phase is Confirmed || phase is Exhausted,
        Phase::Confirmed => phase is Exhausted,
        Phase::Exhausted => false,
    }
}

/// The receipt of a process for `phase`. It names the connection that owns the
/// app's name, and the bus, as the bus gave them.
pub open spec fn receipt_of(
    session: Session<Seq<char>>,
    episode: Episode<Seq<char>>,
    phase: Phase,
    record: Record<Seq<char>>,
    story: Story,
) -> bool {
    &&& record.phase == phase
    &&& record.token == episode.token && record.generation == episode.generation
    &&& record.tier == session.tier && record.version == session.version
    &&& session.tier <= last_rung(session.package) ==> record.profile == tier_name(
        session.tier as int,
    )
    &&& record.pid == Some(session.pid)
    &&& match story.sight {
        Some(Observation::Owned(owner)) => record.unique_name == Some(owner.unique_name)
            && record.bus_id == story.bus && story.greeted,
        Some(_) => record.unique_name is None && record.bus_id is None,
        None => false,
    }
}

/// Whether a receipt for `phase` is due, by the record that was read.
pub open spec fn is_due(episode: Episode<Seq<char>>, phase: Phase, story: Story) -> bool {
    story.first_read matches Some(Some(record)) && precedes(record, episode, phase)
}

spec fn noting_down(
    turn: TaskModel,
    session: Session<Seq<char>>,
    episode: Episode<Seq<char>>,
    phase: Phase,
    story: Story,
) -> bool {
    let due = is_due(episode, phase, story);
    match turn {
        Turn::Ask(Task::Note(task)) => {
            &&& task.dbus_name == session.dbus_name
            &&& task.receipt == session.receipt(phase, episode)
            &&& match task.stage {
                NoteStage::Lock => story.disk == story.base && !story.denied && story.first_read
                    is None,
                NoteStage::Read => story.disk == story.base && !story.denied && story.first_read
                    is None,
                NoteStage::Observe => story.disk == story.base && !story.denied && due,
                NoteStage::BusId { unique_name } => {
                    &&& story.disk == story.base && !story.denied && due
                    &&& story.sight matches Some(Observation::Owned(owner)) && owner.unique_name
                        == unique_name
                },
                NoteStage::Write(record) => {
                    &&& story.disk == story.base && !story.denied && due
                    &&& receipt_of(session, episode, phase, record, story)
                },
                NoteStage::Unlock => noted_down(session, episode, phase, story)
                    && story.first_read is Some,
            }
        },
        Turn::Done(Outcome::Noted) => noted_down(session, episode, phase, story) && (story.denied
            || story.first_read is Some),
        _ => false,
    }
}

/// What a receipt leaves on disk: itself, if it is due and no lock or write
/// failed, and otherwise what was there before.
pub open spec fn noted_down(
    session: Session<Seq<char>>,
    episode: Episode<Seq<char>>,
    phase: Phase,
    story: Story,
) -> bool {
    if !story.denied && is_due(episode, phase, story) {
        story.disk matches Some(record) && receipt_of(session, episode, phase, record, story)
    } else {
        story.disk == story.base
    }
}

#[verifier::rlimit(40)]
proof fn lemma_noting_down(
    session: Session<Seq<char>>,
    episode: Episode<Seq<char>>,
    phase: Phase,
    base: Option<Record<Seq<char>>>,
    replies: Seq<Reply<Seq<char>>>,
)
    requires
        session.episode == Some(episode),
    ensures
        ({
            let (turn, story) = run(noting(session.notes(phase)), base, replies);
            &&& story.base == base
            &&& noting_down(turn, session, episode, phase, story)
        }),
    decreases replies.len(),
{
    if replies.len() > 0 {
        lemma_noting_down(session, episode, phase, base, replies.drop_last());
    }
}

/// A receipt that is due is written. If the record that was read is that of this
/// process's episode at an earlier phase, and no lock or write fails, then a
/// receipt that has come to its end has left a record of exactly its phase, with
/// this process's tier, profile, version and pid; and with the unique name of the
/// connection that owns the app's name and the bus id, if the bus named an owner.
/// In every other case the record is as it was.
pub proof fn a_receipt_that_is_due_is_written(
    session: Session<Seq<char>>,
    phase: Phase,
    episode: Episode<Seq<char>>,
    base: Option<Record<Seq<char>>>,
    replies: Seq<Reply<Seq<char>>>,
)
    requires
        session.episode == Some(episode),
    ensures
        ({
            let start = noting(session.notes(phase));
            let (turn, story) = run(start, base, replies);
            let due = is_due(episode, phase, story);
            &&& start is Ask
            &&& match turn {
                Turn::Ask(task) => match task.asks() {
                    Request::Lock | Request::Read | Request::Unlock => true,
                    Request::Observe { name } => due && name == session.dbus_name,
                    Request::BusId => due,
                    Request::Write(record) => due && receipt_of(
                        session,
                        episode,
                        phase,
                        record,
                        story,
                    ),
                    _ => false,
                },
                Turn::Done(outcome) => {
                    &&& outcome is Noted && (story.denied || story.first_read is Some)
                    &&& due && !story.denied ==> (story.disk matches Some(record) && receipt_of(
                        session,
                        episode,
                        phase,
                        record,
                        story,
                    ))
                    &&& !due || story.denied ==> story.disk == base
                },
            }
        }),
{
    lemma_noting_down(session, episode, phase, base, replies);
}

/// A process that owns no episode leaves no receipt, and one that has crashed at
/// startup is never recorded as a clean start. Every other process that comes to
/// the end of its startup records it.
pub proof fn only_a_clean_start_is_confirmed(session: Session<Seq<char>>, phase: Phase)
    ensures
        session.notes(phase) is Done <==> session.episode is None,
        session.confirms() is Done <==> session.crashed || session.episode is None,
        session.confirms() is Ask ==> session.confirms() == session.notes(Phase::Confirmed),
{
}

} // verus!
