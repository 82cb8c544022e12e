//! What holds of a whole run, whatever the host replies.
//!
//! A run is a task and the replies it has had. Its `Story` is what those replies
//! have established: whether the lock is held, what was read under it, what was
//! made durable, whether the name was released. The laws here say, for every
//! sequence of replies, when a task may ask for something and what its outcome
//! means.

use super::claim::{started, Claimed, Claiming, ClaimStage};
use super::classify::{decision, doubtful_pid, Decision};
use super::cli::Flags;
use super::dbus::Observation;
use super::episode::{advances, eligible, is_current, prepared, Episode, Termination};
use super::hand_off::{HandOff, Prepared, Release, Stage};
use super::launcher::{tag_in, Handoff, Tag};
use super::profiles::{package_in, present_in, Package};
use super::protocol::{Reply, Request, Turn};
use super::receipt::{attempt_of, ExhaustStage, Exhausting, NoteStage, Noting};
use super::session::{
    launched, reconciled, Boot, BootModel, Booting, CrashResponse, Crashing, Session,
};
use super::state::{Claim, Phase, Record, RETRY_GENERATION};
use super::task::{booting, crashing, noting, Outcome, Task, TaskModel};
use vstd::prelude::*;

verus! {

// ── Runs and their stories ──────────────────────────────────────────────────

/// What the replies to a run have established.
pub struct Story {
    /// The state lock is held.
    pub held: bool,
    /// The record as it is known under the lock that is held: as it was read,
    /// and as it was changed since. `None` if it has not been looked at.
    pub seen: Option<Option<Record<Seq<char>>>>,
    /// The record as it was read first.
    pub first_read: Option<Option<Record<Seq<char>>>>,
    /// The record this run made durable last.
    pub durable: Option<Record<Seq<char>>>,
    /// The claim this run won.
    pub won: Option<Episode<Seq<char>>>,
    /// How the claim this run asked for was answered.
    pub verdict: Option<Claim<Seq<char>>>,
    /// The episode that was minted last.
    pub minted: Option<Episode<Seq<char>>>,
    /// Whether there was anything to delete when the state was cleared.
    pub cleared: Option<bool>,
    /// The token whose claims outlived the others.
    pub pruned: Option<Seq<char>>,
    /// The binary to re-execute is at hand.
    pub located: bool,
    /// The single-instance name was given up.
    pub released: bool,
    /// The name that the last observation proved free, if that was after the binary
    /// was found and the own name given up.
    pub free: Option<Seq<char>>,
    /// What was seen of a name last.
    pub sight: Option<Observation<Seq<char>>>,
    /// What was seen of a name first.
    pub first_sight: Option<Observation<Seq<char>>>,
    /// The bus as it named itself last.
    pub bus: Option<Seq<char>>,
    /// The bus was asked for its name.
    pub greeted: bool,
    /// The process that was asked after last.
    pub probed: Option<u32>,
    /// The process that was asked after last was alive.
    pub alive: bool,
    /// How many children were spawned.
    pub spawned: nat,
    /// The tag of the child that was spawned last.
    pub child: Option<Tag<Seq<char>>>,
    /// A lock or a write failed after this run had made a record durable.
    pub stuck: bool,
    /// A lock or a write failed.
    pub denied: bool,
    /// Why the last lock or write that failed did.
    pub fault: Option<Seq<char>>,
    /// There was no binary to re-execute, or no child came of it.
    pub missed: bool,
    /// With the binary at hand, the name was not free.
    pub barred: bool,
    /// The record when the run began.
    pub base: Option<Record<Seq<char>>>,
    /// The record as this run has changed it.
    pub disk: Option<Record<Seq<char>>>,
    /// Every read gave back the record as this run had left it: nobody else
    /// changed it.
    pub alone: bool,
}

/// A run that has had no reply yet.
pub open spec fn outset(base: Option<Record<Seq<char>>>) -> Story {
    Story {
        held: false,
        seen: None,
        first_read: None,
        durable: None,
        won: None,
        verdict: None,
        minted: None,
        cleared: None,
        pruned: None,
        located: false,
        released: false,
        free: None,
        sight: None,
        first_sight: None,
        bus: None,
        greeted: false,
        probed: None,
        alive: false,
        spawned: 0,
        child: None,
        stuck: false,
        denied: false,
        fault: None,
        missed: false,
        barred: false,
        base,
        disk: base,
        alone: true,
    }
}

/// The story after one more reply. A reply that does not answer the request
/// tells nothing.
pub open spec fn told(
    story: Story,
    request: Request<Seq<char>>,
    reply: Reply<Seq<char>>,
) -> Story {
    match (request, reply) {
        (Request::Lock, Reply::Locked(Ok(()))) => Story { held: true, seen: None, ..story },
        (Request::Lock, Reply::Locked(Err(error))) => Story {
            stuck: story.stuck || story.durable is Some,
            denied: true,
            fault: Some(error),
            ..story
        },
        (Request::Unlock, Reply::Done) => Story { held: false, seen: None, ..story },
        (Request::Read, Reply::Found(found)) => Story {
            seen: if story.held {
                Some(found)
            } else {
                None
            },
            first_read: if story.first_read is None {
                Some(found)
            } else {
                story.first_read
            },
            alone: story.alone && found == story.disk,
            ..story
        },
        (Request::Write(record), Reply::Written(Ok(()))) => Story {
            seen: Some(Some(record)),
            durable: Some(record),
            disk: Some(record),
            ..story
        },
        (Request::Write(_), Reply::Written(Err(error))) => Story {
            stuck: story.stuck || story.durable is Some,
            denied: true,
            fault: Some(error),
            ..story
        },
        (Request::Clear, Reply::Cleared(existed)) => Story {
            seen: Some(None),
            disk: None,
            cleared: Some(existed),
            ..story
        },
        (Request::PruneClaims { token }, Reply::Done) => Story { pruned: Some(token), ..story },
        (Request::Claim(episode), Reply::Claimed(verdict)) => Story {
            won: if verdict is Won {
                Some(episode)
            } else {
                story.won
            },
            verdict: Some(verdict),
            ..story
        },
        (Request::Mint, Reply::Minted(episode)) => Story { minted: Some(episode), ..story },
        (Request::Binary, Reply::Located(Ok(()))) => Story { located: true, free: None, ..story },
        (Request::Binary, Reply::Located(Err(_))) => Story { missed: true, ..story },
        (Request::Release, Reply::Done) => Story { released: true, free: None, ..story },
        (Request::Observe { name }, Reply::Observed(observation)) => Story {
            free: if observation is Free {
                Some(name)
            } else {
                None
            },
            barred: story.barred || (story.located && !(observation is Free)),
            sight: Some(observation),
            first_sight: if story.first_sight is None {
                Some(observation)
            } else {
                story.first_sight
            },
            ..story
        },
        (Request::BusId, Reply::Bus(bus)) => Story { bus, greeted: true, ..story },
        (Request::Probe { pid }, Reply::Alive(alive)) => Story {
            alive,
            probed: Some(pid),
            ..story
        },
        (Request::Spawn { tag, .. }, Reply::Spawned(Ok(_))) => Story {
            spawned: story.spawned + 1,
            child: Some(tag),
            ..story
        },
        (Request::Spawn { .. }, Reply::Spawned(Err(_))) => Story { missed: true, ..story },
        _ => story,
    }
}

/// A run from `start`, over a record that was `base` when it began.
pub open spec fn run(
    start: TaskModel,
    base: Option<Record<Seq<char>>>,
    replies: Seq<Reply<Seq<char>>>,
) -> (TaskModel, Story)
    decreases replies.len(),
{
    if replies.len() == 0 {
        (start, outset(base))
    } else {
        let (turn, story) = run(start, base, replies.drop_last());
        match turn {
            Turn::Done(_) => (turn, story),
            Turn::Ask(task) => (
                task.next(replies.last()),
                told(story, task.asks(), replies.last()),
            ),
        }
    }
}

/// Whether `start` is how a boot begins.
pub open spec fn begins_boot(start: TaskModel) -> bool {
    exists|
        state_dir: Result<(), Seq<char>>,
        identifier: Seq<char>,
        version: Seq<char>,
        flags: Flags,
        env: Map<Seq<char>, Seq<char>>,
        pid: u32,
    |
        start == booting(
            #[trigger] reconciled(state_dir, identifier, version, flags, env, pid),
        )
}

/// Whether `start` is how the answer to a termination begins.
pub open spec fn begins_crash(start: TaskModel) -> bool {
    exists|session: Session<Seq<char>>, termination: Termination, since_launch: u128|
        start == crashing(#[trigger] session.answers(termination, since_launch))
}

/// Whether `start` is how a receipt begins.
pub open spec fn begins_note(start: TaskModel) -> bool {
    exists|session: Session<Seq<char>>, phase: Phase|
        start == noting(#[trigger] session.notes(phase))
}

// ── What each stage may rely on ─────────────────────────────────────────────

/// The side of the release that a refusal is reported on is the true one.
spec fn sided(handoff: Handoff<Seq<char>>, story: Story) -> bool {
    match handoff {
        Handoff::Launched => false,
        Handoff::RefusedBeforeRelease(_) => !story.released,
        Handoff::RefusedAfterRelease(_) => story.released,
    }
}

/// The prepared record is durable, and it is what the run would put back.
spec fn ready(task: HandOff<Seq<char>>, attempt: Prepared<Seq<char>>, story: Story) -> bool {
    let record = task.attempt.record(attempt.episode);
    &&& story.durable == Some(record)
    &&& story.disk == Some(record)
    &&& story.alone ==> attempt.previous == story.base
}

spec fn ready_if_any(
    task: HandOff<Seq<char>>,
    attempt: Option<Prepared<Seq<char>>>,
    story: Story,
) -> bool {
    match attempt {
        Some(attempt) => ready(task, attempt, story),
        None => {
            &&& story.disk == story.base && story.durable is None
            &&& task.attempt.release is NothingHeld
        },
    }
}

spec fn hand_off_fits(task: HandOff<Seq<char>>, story: Story) -> bool {
    &&& task.attempt.tier < task.attempt.package.rungs()
    &&& task.attempt.release is NothingHeld ==> !story.released
    &&& story.spawned == 0
    &&& match task.stage {
        Stage::Lock(_) => !story.held && !story.released && story.disk == story.base,
        Stage::Read(_) => story.held && !story.released && story.disk == story.base,
        Stage::Write(attempt) => {
            &&& story.held && !story.released && story.disk == story.base
            &&& story.seen == Some(attempt.previous)
            &&& story.alone ==> attempt.previous == story.base
        },
        Stage::Abandon(_) => story.held && !story.released && story.disk == story.base,
        Stage::Prune(attempt) => {
            &&& story.held && !story.released && attempt.episode.generation == 0
            &&& story.seen == Some(story.durable)
            &&& ready(task, attempt, story)
        },
        Stage::Unlock(attempt) => story.held && !story.released && ready(task, attempt, story),
        Stage::Binary(attempt) => {
            &&& !story.held && !story.released
            &&& ready_if_any(task, attempt, story)
        },
        Stage::Release(attempt) => {
            &&& !story.held && !story.released && story.located
            &&& task.attempt.release is SingleInstanceName
            &&& ready_if_any(task, attempt, story)
        },
        Stage::Observe(attempt) => {
            &&& !story.held && story.located
            &&& task.attempt.release is SingleInstanceName ==> story.released
            &&& ready_if_any(task, attempt, story)
        },
        Stage::Spawn(attempt) => {
            &&& !story.held && story.located && story.free == Some(task.attempt.dbus_name)
            &&& task.attempt.release is SingleInstanceName ==> story.released
            &&& ready_if_any(task, attempt, story)
        },
        Stage::Relock(attempt, handoff) => {
            &&& !story.held && sided(handoff, story)
            &&& ready(task, attempt, story)
        },
        Stage::Reread(attempt, handoff) => {
            &&& story.held && sided(handoff, story)
            &&& ready(task, attempt, story)
        },
        Stage::Restore(attempt, handoff) => {
            &&& story.held && sided(handoff, story)
            &&& ready(task, attempt, story)
            &&& story.seen matches Some(Some(current)) && is_current(current, attempt.episode)
        },
        Stage::Reunlock(handoff) => {
            &&& story.held && sided(handoff, story)
            &&& story.alone && !story.stuck ==> story.disk == story.base
        },
    }
}

/// What a child finds when its parent has handed over to it: the prepared record
/// of the episode in its tag. A child without an episode finds what was there
/// before.
pub open spec fn left_for_child(story: Story) -> bool {
    match story.child {
        Some(tag) => match tag.episode {
            Some(episode) => {
                &&& story.disk == story.durable
                &&& story.durable matches Some(record) && record.phase is Prepared && is_current(
                    record,
                    episode,
                ) && record.profile == tag.profile
            },
            None => story.durable is None && story.disk == story.base,
        },
        None => false,
    }
}

/// What a handoff's outcome says.
spec fn hand_off_ends(release: Release, handoff: Handoff<Seq<char>>, story: Story) -> bool {
    &&& !story.held
    &&& release is NothingHeld ==> !story.released
    &&& match handoff {
        Handoff::Launched => {
            &&& story.spawned == 1 && left_for_child(story)
            &&& release is SingleInstanceName ==> story.released && story.durable is Some
        },
        _ => {
            &&& story.spawned == 0 && sided(handoff, story)
            &&& story.alone && !story.stuck ==> story.disk == story.base
        },
    }
}

proof fn lemma_hand_off_step(task: HandOff<Seq<char>>, story: Story, reply: Reply<Seq<char>>)
    requires
        hand_off_fits(task, story),
    ensures
        match task.next(reply) {
            Turn::Ask(next) => {
                &&& next.attempt == task.attempt
                &&& hand_off_fits(next, told(story, task.asks(), reply))
            },
            Turn::Done(handoff) => hand_off_ends(
                task.attempt.release,
                handoff,
                told(story, task.asks(), reply),
            ),
        },
{
}

/// What an owner has to show for itself.
spec fn owns(episode: Episode<Seq<char>>, tier: usize, pid: u32, story: Story) -> bool {
    &&& story.won == Some(episode)
    &&& story.durable matches Some(record) && record.phase is Started && is_current(record, episode)
        && record.tier == tier && record.pid == Some(pid)
    &&& story.disk == story.durable
}

spec fn claimed_fits(claimed: Claimed<Seq<char>>, task: Claiming<Seq<char>>, story: Story) -> bool {
    match claimed {
        Claimed::Owner { episode, tier } => episode == task.episode && owns(
            episode,
            tier,
            task.pid,
            story,
        ),
        Claimed::Superseded(_) => untouched(story) && story.won is None,
        Claimed::Untracked(_) => untouched(story),
    }
}

/// Nothing was made durable, and the record is as it was.
spec fn untouched(story: Story) -> bool {
    story.disk == story.base && story.durable is None
}

spec fn claim_fits(task: Claiming<Seq<char>>, story: Story) -> bool {
    match task.stage {
        ClaimStage::Lock => !story.held && untouched(story) && story.won is None,
        ClaimStage::Read => story.held && untouched(story) && story.won is None,
        ClaimStage::Claim(record) => {
            &&& story.held && untouched(story) && story.won is None
            &&& story.seen == Some(Some(record))
            &&& is_current(record, task.episode) && record.phase is Prepared
        },
        ClaimStage::Write(record) => {
            &&& story.held && untouched(story)
            &&& story.seen == Some(Some(record))
            &&& is_current(record, task.episode) && record.phase is Prepared
            &&& story.won == Some(task.episode)
        },
        ClaimStage::Unlock(claimed) => story.held && claimed_fits(claimed, task, story),
    }
}

proof fn lemma_claim_step(task: Claiming<Seq<char>>, story: Story, reply: Reply<Seq<char>>)
    requires
        claim_fits(task, story),
    ensures
        told(story, task.asks(), reply).released == story.released,
        told(story, task.asks(), reply).spawned == story.spawned,
        match task.next(reply) {
            Turn::Ask(next) => {
                &&& next.pid == task.pid && next.episode == task.episode
                &&& claim_fits(next, told(story, task.asks(), reply))
            },
            Turn::Done(claimed) => {
                &&& !told(story, task.asks(), reply).held
                &&& claimed_fits(claimed, task, told(story, task.asks(), reply))
            },
        },
{
}

spec fn exhaust_fits(task: Exhausting<Seq<char>>, story: Story) -> bool {
    &&& task.record.phase is Exhausted
    &&& match task.stage {
        ExhaustStage::Lock => !story.held && story.disk == story.base,
        ExhaustStage::Write => story.held && story.disk == story.base,
        ExhaustStage::Unlock => {
            &&& story.held && spent(story)
            &&& !story.denied ==> story.disk == Some(task.record)
        },
    }
}

/// The record is as it was, or says that the ladder is spent.
spec fn spent(story: Story) -> bool {
    story.disk == story.base || (story.disk matches Some(record) && record.phase is Exhausted)
}

proof fn lemma_exhaust_step(task: Exhausting<Seq<char>>, story: Story, reply: Reply<Seq<char>>)
    requires
        exhaust_fits(task, story),
    ensures
        told(story, task.asks(), reply).released == story.released,
        told(story, task.asks(), reply).spawned == story.spawned,
        match task.next(reply) {
            Turn::Ask(next) => {
                &&& next.record == task.record
                &&& exhaust_fits(next, told(story, task.asks(), reply))
            },
            Turn::Done(()) => {
                let after = told(story, task.asks(), reply);
                &&& !after.held && spent(after)
                &&& !after.denied ==> after.disk == Some(task.record)
            },
        },
{
}

spec fn note_fits(task: Noting<Seq<char>>, story: Story) -> bool {
    let free = story.seen matches Some(found) && advances(
        found,
        attempt_of(task.receipt),
        task.receipt.phase,
    );
    &&& !story.released && story.spawned == 0
    &&& match task.stage {
        NoteStage::Lock => !story.held,
        NoteStage::Read => story.held,
        NoteStage::Observe => story.held && free,
        NoteStage::BusId { .. } => story.held && free,
        NoteStage::Write(record) => {
            &&& story.held && free
            &&& record == (Record {
                unique_name: record.unique_name,
                bus_id: record.bus_id,
                ..task.receipt
            })
        },
        NoteStage::Unlock => story.held,
    }
}

proof fn lemma_note_step(task: Noting<Seq<char>>, story: Story, reply: Reply<Seq<char>>)
    requires
        note_fits(task, story),
    ensures
        match task.next(reply) {
            Turn::Ask(next) => {
                &&& next.receipt == task.receipt
                &&& note_fits(next, told(story, task.asks(), reply))
            },
            Turn::Done(()) => !told(story, task.asks(), reply).held,
        },
{
}

// ── Boots ───────────────────────────────────────────────────────────────────

/// A session before it owns anything.
spec fn bare(session: Session<Seq<char>>) -> bool {
    session.episode is None && !session.crashed
}

/// A session as it is launched.
spec fn newborn(session: Session<Seq<char>>) -> bool {
    bare(session) && session.tier == 0 && !session.frozen
}

spec fn boot_fits(task: Booting<Seq<char>>, story: Story) -> bool {
    &&& !story.released && story.spawned == 0
    &&& match task {
        Booting::ResetLock => !story.held,
        Booting::ResetClear => story.held,
        Booting::ResetUnlock { .. } => story.held && story.disk is None,
        Booting::Read(session) => !story.held && story.disk == story.base && newborn(session),
        Booting::Observe(session, _) => !story.held && story.disk == story.base && newborn(session),
        Booting::BusId(session, _, _) => !story.held && story.disk == story.base && newborn(
            session,
        ),
        Booting::Probe(session, record, observation, _, pid) => {
            &&& !story.held && story.disk == story.base && newborn(session)
            &&& doubtful_pid(record, observation, session.version) == Some(pid)
        },
        Booting::DiscardLock(session) => !story.held && story.disk == story.base && newborn(
            session,
        ),
        Booting::DiscardClear(session) => story.held && story.disk == story.base && newborn(
            session,
        ),
        Booting::DiscardUnlock(session) => story.held && story.disk is None && newborn(session),
        Booting::Mint(session) => !story.held && story.disk == story.base && bare(session),
        Booting::HandOff(session, hand_off) => {
            &&& bare(session)
            &&& hand_off.attempt.release is NothingHeld
            &&& hand_off_fits(hand_off, story)
        },
        Booting::ExhaustMint(session) => !story.held && story.disk == story.base && bare(session)
            && session.tier > 0,
        Booting::Exhaust(session, exhausting) => bare(session) && session.tier > 0 && exhaust_fits(
            exhausting,
            story,
        ),
        Booting::Claim(session, claiming) => {
            &&& bare(session) && !session.frozen
            &&& claiming.pid == session.pid
            &&& claim_fits(claiming, story)
        },
    }
}

/// What a boot's outcome says.
spec fn boot_ends(boot: Boot<Seq<char>, Seq<Seq<char>>>, story: Story) -> bool {
    &&& !story.held && !story.released
    &&& boot is HandedOff ==> story.spawned == 1 && left_for_child(story)
    &&& !(boot is HandedOff) ==> story.spawned == 0
    &&& boot is Reset ==> story.disk is None
    &&& boot matches Boot::Run(session) ==> {
        &&& !session.crashed
        &&& match session.episode {
            Some(episode) => !session.frozen && owns(episode, session.tier, session.pid, story),
            None => story.alone && !story.stuck ==> {
                &&& story.disk is None || spent(story)
                &&& session.frozen && session.tier == 0 ==> story.disk == story.base
            },
        }
    }
}

spec fn boot_turn_fits(turn: BootModel, story: Story) -> bool {
    match turn {
        Turn::Ask(task) => boot_fits(task, story),
        Turn::Done(boot) => boot_ends(boot, story),
    }
}

proof fn lemma_boot_step(task: Booting<Seq<char>>, story: Story, reply: Reply<Seq<char>>)
    requires
        boot_fits(task, story),
    ensures
        boot_turn_fits(task.next(reply), told(story, task.asks(), reply)),
{
    match task {
        Booting::HandOff(_, hand_off) => lemma_hand_off_step(hand_off, story, reply),
        Booting::Exhaust(_, exhausting) => lemma_exhaust_step(exhausting, story, reply),
        Booting::Claim(_, claiming) => lemma_claim_step(claiming, story, reply),
        _ => {},
    }
}

// ── Crashes ─────────────────────────────────────────────────────────────────

spec fn crash_fits(task: Crashing<Seq<char>>, story: Story) -> bool {
    &&& story.spawned == 0
    &&& match task {
        Crashing::Mint { .. } => !story.held && !story.released && story.disk == story.base,
        Crashing::HandOff(hand_off) => {
            &&& hand_off.attempt.release is SingleInstanceName
            &&& hand_off_fits(hand_off, story)
        },
        Crashing::ExhaustMint(_) => !story.held && !story.released && story.disk == story.base,
        Crashing::Exhaust(exhausting) => !story.released && exhaust_fits(exhausting, story),
    }
}

/// What the answer to a crash says.
spec fn crash_ends(response: CrashResponse, story: Story) -> bool {
    &&& !story.held
    &&& match response {
        CrashResponse::HandedOff => {
            &&& story.spawned == 1 && story.released
            &&& story.durable is Some && left_for_child(story)
        },
        CrashResponse::Stranded => story.spawned == 0 && story.released,
        CrashResponse::Continue => story.spawned == 0 && !story.released,
    }
    &&& !(response is HandedOff) && story.alone && !story.stuck ==> spent(story)
}

spec fn crash_turn_fits(turn: Turn<Crashing<Seq<char>>, CrashResponse>, story: Story) -> bool {
    match turn {
        Turn::Ask(task) => crash_fits(task, story),
        Turn::Done(response) => crash_ends(response, story),
    }
}

proof fn lemma_crash_step(task: Crashing<Seq<char>>, story: Story, reply: Reply<Seq<char>>)
    requires
        crash_fits(task, story),
    ensures
        crash_turn_fits(task.next(reply), told(story, task.asks(), reply)),
{
    match task {
        Crashing::HandOff(hand_off) => lemma_hand_off_step(hand_off, story, reply),
        Crashing::Exhaust(exhausting) => lemma_exhaust_step(exhausting, story, reply),
        _ => {},
    }
}

// ── Every run ───────────────────────────────────────────────────────────────

/// Whether `start` is how any task begins.
pub open spec fn begins(start: TaskModel) -> bool {
    begins_boot(start) || begins_crash(start) || begins_note(start)
}

/// What holds between a task and its story at every turn.
pub closed spec fn fits(turn: TaskModel, story: Story) -> bool {
    match turn {
        Turn::Ask(Task::Boot(task)) => boot_fits(task, story),
        Turn::Ask(Task::Crash(task)) => crash_fits(task, story),
        Turn::Ask(Task::Note(task)) => note_fits(task, story),
        Turn::Done(Outcome::Booted(boot)) => boot_ends(boot, story),
        Turn::Done(Outcome::Answered(response)) => crash_ends(response, story),
        Turn::Done(Outcome::Noted) => !story.held,
    }
}

pub proof fn lemma_start_fits(start: TaskModel, base: Option<Record<Seq<char>>>)
    requires
        begins(start),
    ensures
        fits(start, outset(base)),
{
}

pub proof fn lemma_step_fits(task: Task<Seq<char>>, story: Story, reply: Reply<Seq<char>>)
    requires
        fits(Turn::Ask(task), story),
    ensures
        fits(task.next(reply), told(story, task.asks(), reply)),
{
    match task {
        Task::Boot(task) => lemma_boot_step(task, story, reply),
        Task::Crash(task) => lemma_crash_step(task, story, reply),
        Task::Note(task) => lemma_note_step(task, story, reply),
    }
}

proof fn lemma_run_fits(
    start: TaskModel,
    base: Option<Record<Seq<char>>>,
    replies: Seq<Reply<Seq<char>>>,
)
    requires
        begins(start),
    ensures
        fits(run(start, base, replies).0, run(start, base, replies).1),
        run(start, base, replies).1.base == base,
    decreases replies.len(),
{
    if replies.len() == 0 {
        lemma_start_fits(start, base);
    } else {
        lemma_run_fits(start, base, replies.drop_last());
        let (turn, story) = run(start, base, replies.drop_last());
        if let Turn::Ask(task) = turn {
            lemma_step_fits(task, story, replies.last());
        }
    }
}

/// When a request may be made.
///
/// * The lock is taken only when it is not held; it is given back, and the
///   durable state changed, only when it is.
/// * Claims are pruned only once the record of the surviving token is durable.
/// * The name is released only with the binary at hand, a prepared record
///   durable, and the lock given back; and only once.
/// * A child is spawned only with the binary at hand, the name proven free, the
///   lock given back, and no other child spawned. If it is to claim an episode,
///   the record it will claim is durable, and agrees with its tag.
pub open spec fn orderly(request: Request<Seq<char>>, story: Story) -> bool {
    match request {
        Request::Lock => !story.held,
        Request::Unlock | Request::Write(_) | Request::Clear | Request::Claim(_) => story.held,
        Request::PruneClaims { token } => {
            &&& story.held && story.seen == Some(story.durable)
            &&& story.durable matches Some(record) && record.token == token && record.generation
                == 0 && record.phase is Prepared
        },
        Request::Release => {
            &&& !story.held && story.located && !story.released
            &&& story.durable matches Some(record) && record.phase is Prepared
        },
        Request::Spawn { package, tier, tag } => {
            &&& !story.held && story.located && story.free is Some && story.spawned == 0
            &&& tier < package.rungs() && tag.profile == package.profile(tier as int)
            &&& tag.episode matches Some(episode) ==> {
                &&& story.durable matches Some(record)
                &&& record == prepared(episode, package, tier, record.version)
            }
        },
        _ => true,
    }
}

/// The handoff inside a task, if it has come to one.
pub open spec fn hand_off_in(task: Task<Seq<char>>) -> Option<HandOff<Seq<char>>> {
    match task {
        Task::Boot(Booting::HandOff(_, task)) => Some(task),
        Task::Crash(Crashing::HandOff(task)) => Some(task),
        _ => None,
    }
}

/// What a task may rely on when it asks to change the record: what it has read
/// under the lock it holds.
pub proof fn lemma_guards(task: Task<Seq<char>>, story: Story)
    requires
        fits(Turn::Ask(task), story),
    ensures
        orderly(task.asks(), story),
        task matches Task::Note(note) ==> (note.asks() matches Request::Write(record) ==> {
            &&& attempt_of(record) == attempt_of(note.receipt)
            &&& record.phase == note.receipt.phase
            &&& story.seen matches Some(found)
            &&& advances(found, attempt_of(record), record.phase)
        }),
        task matches Task::Boot(Booting::Claim(_, claiming)) ==> (claiming.asks() matches
            Request::Write(record) ==> {
            &&& story.seen matches Some(Some(found))
            &&& found.phase is Prepared && is_current(found, claiming.episode)
            &&& record == started(found, claiming.pid)
        }),
        hand_off_in(task) matches Some(hand_off) ==> {
            &&& hand_off.stage matches Stage::Write(attempt) ==> story.seen == Some(
                attempt.previous,
            )
            &&& hand_off.stage matches Stage::Restore(attempt, _) ==> {
                &&& story.seen matches Some(Some(current))
                &&& is_current(current, attempt.episode)
            }
        },
        hand_off_in(task) is None ==> (task.asks() matches Request::Write(record) ==> {
            ||| record.phase is Exhausted
            ||| {
                &&& story.seen matches Some(Some(found))
                &&& is_current(found, attempt_of(record))
                &&& record.phase.rank() > found.phase.rank()
            }
        }),
{
}

// ── Laws of every run ───────────────────────────────────────────────────────

/// No task ever asks out of order, and none ends with the lock held: whatever
/// the host replies, each request is made only when it may be.
pub proof fn requests_are_orderly(
    start: TaskModel,
    base: Option<Record<Seq<char>>>,
    replies: Seq<Reply<Seq<char>>>,
)
    requires
        begins(start),
    ensures
        run(start, base, replies).0 matches Turn::Ask(task) ==> orderly(
            task.asks(),
            run(start, base, replies).1,
        ),
        run(start, base, replies).0 is Done ==> !run(start, base, replies).1.held,
{
    lemma_run_fits(start, base, replies);
    if let Turn::Ask(task) = run(start, base, replies).0 {
        lemma_guards(task, run(start, base, replies).1);
    }
}

/// Whether a turn belongs to a boot.
pub open spec fn of_boot(turn: TaskModel) -> bool {
    turn matches Turn::Ask(Task::Boot(_)) || turn matches Turn::Done(Outcome::Booted(_))
}

/// Whether a turn belongs to the answer to a crash.
pub open spec fn of_crash(turn: TaskModel) -> bool {
    turn matches Turn::Ask(Task::Crash(_)) || turn matches Turn::Done(Outcome::Answered(_))
}

proof fn lemma_kind(
    start: TaskModel,
    base: Option<Record<Seq<char>>>,
    replies: Seq<Reply<Seq<char>>>,
)
    ensures
        of_boot(start) ==> of_boot(run(start, base, replies).0),
        of_crash(start) ==> of_crash(run(start, base, replies).0),
    decreases replies.len(),
{
    if replies.len() > 0 {
        lemma_kind(start, base, replies.drop_last());
    }
}

/// A boot never releases the single-instance name, and it spawns a child exactly
/// if it says that it handed off: a process that runs on, or exits for any other
/// reason, leaves no child behind. A child that was spawned finds the prepared
/// record it is to claim.
pub proof fn a_boot_hands_off_or_stays(
    start: TaskModel,
    base: Option<Record<Seq<char>>>,
    replies: Seq<Reply<Seq<char>>>,
)
    requires
        begins_boot(start),
    ensures
        !run(start, base, replies).1.released,
        run(start, base, replies).0 matches Turn::Done(outcome) ==> {
            &&& outcome matches Outcome::Booted(boot)
            &&& boot is HandedOff <==> run(start, base, replies).1.spawned == 1
            &&& !(boot is HandedOff) <==> run(start, base, replies).1.spawned == 0
            &&& boot is HandedOff ==> left_for_child(run(start, base, replies).1)
        },
{
    lemma_run_fits(start, base, replies);
    lemma_kind(start, base, replies);
}

/// The answer to a crash tells the truth about the name and the child: handed
/// off if there is a child, stranded if the name is gone without one, and
/// otherwise nothing happened and the app carries on. The name is always given up
/// before a child is spawned to take it, and the child finds the prepared record
/// it is to claim.
pub proof fn a_crash_response_is_true(
    start: TaskModel,
    base: Option<Record<Seq<char>>>,
    replies: Seq<Reply<Seq<char>>>,
)
    requires
        begins_crash(start),
    ensures
        run(start, base, replies).0 matches Turn::Done(outcome) ==> {
            let story = run(start, base, replies).1;
            &&& outcome matches Outcome::Answered(response)
            &&& story.spawned <= 1
            &&& response is HandedOff <==> story.spawned == 1
            &&& response is Stranded <==> story.spawned == 0 && story.released
            &&& response is Continue <==> story.spawned == 0 && !story.released
            &&& response is HandedOff ==> story.released && left_for_child(story)
            &&& response is HandedOff ==> story.disk is Some && story.disk == story.durable
        },
        run(start, base, replies).0 matches Turn::Ask(task) ==> (task.asks() is Spawn ==> run(
            start,
            base,
            replies,
        ).1.released),
{
    lemma_run_fits(start, base, replies);
    lemma_kind(start, base, replies);
}

/// A process that runs on with an episode has won its claim exclusively, and its
/// `started` receipt is durable: the episode, the tier it runs and its own pid.
/// It is never a forced launch.
pub proof fn an_owner_has_its_receipt(
    start: TaskModel,
    base: Option<Record<Seq<char>>>,
    replies: Seq<Reply<Seq<char>>>,
)
    requires
        begins_boot(start),
    ensures
        run(start, base, replies).0 matches Turn::Done(Outcome::Booted(Boot::Run(session))) ==> (
        session.episode matches Some(episode) ==> {
            let story = run(start, base, replies).1;
            &&& !session.frozen
            &&& story.won == Some(episode)
            &&& story.durable matches Some(record)
            &&& record.phase is Started && is_current(record, episode)
            &&& record.tier == session.tier && record.pid == Some(session.pid)
        }),
{
    lemma_run_fits(start, base, replies);
}

/// What a boot that runs on leaves on disk, if nobody else wrote to it and no
/// lock or write failed half-way: its own `started` receipt if it owns an
/// episode; otherwise what was there before, nothing if that was unusable, or the
/// record that the ladder is spent. A boot that stays at the baseline because its
/// handoff was refused leaves exactly what was there before.
pub proof fn a_boot_that_stays_cleans_up(
    start: TaskModel,
    base: Option<Record<Seq<char>>>,
    replies: Seq<Reply<Seq<char>>>,
)
    requires
        begins_boot(start),
        run(start, base, replies).1.alone,
        !run(start, base, replies).1.stuck,
    ensures
        run(start, base, replies).0 matches Turn::Done(Outcome::Booted(Boot::Run(session))) ==> {
            let disk = run(start, base, replies).1.disk;
            match session.episode {
                Some(episode) => disk matches Some(record) && record.phase is Started
                    && is_current(record, episode),
                None => {
                    &&& disk == base || disk is None || (disk matches Some(record)
                        && record.phase is Exhausted)
                    &&& session.frozen && session.tier == 0 ==> disk == base
                },
            }
        },
        run(start, base, replies).0 matches Turn::Done(Outcome::Booted(Boot::Reset { .. })) ==> run(
            start,
            base,
            replies,
        ).1.disk is None,
{
    lemma_run_fits(start, base, replies);
}

/// Whether a turn has nothing fatal about it.
spec fn unfatal(turn: TaskModel) -> bool {
    match turn {
        Turn::Ask(Task::Boot(Booting::ResetLock)) => false,
        Turn::Ask(Task::Boot(_)) => true,
        Turn::Done(Outcome::Booted(boot)) => !(boot is Fatal),
        _ => false,
    }
}

proof fn lemma_unfatal(
    start: TaskModel,
    base: Option<Record<Seq<char>>>,
    replies: Seq<Reply<Seq<char>>>,
)
    requires
        begins_boot(start),
        unfatal(start),
    ensures
        unfatal(run(start, base, replies).0),
    decreases replies.len(),
{
    if replies.len() > 0 {
        let before = replies.drop_last();
        lemma_unfatal(start, base, before);
        lemma_run_fits(start, base, before);
        let (turn, story) = run(start, base, before);
        if let Turn::Ask(Task::Boot(Booting::HandOff(_, hand_off))) = turn {
            lemma_hand_off_step(hand_off, story, replies.last());
        }
    }
}

/// Only a flag can keep the app from starting: without one, no boot is fatal,
/// whatever the record, the bus or the disk say.
pub proof fn only_a_flag_is_fatal(
    state_dir: Result<(), Seq<char>>,
    identifier: Seq<char>,
    version: Seq<char>,
    env: Map<Seq<char>, Seq<char>>,
    pid: u32,
    base: Option<Record<Seq<char>>>,
    replies: Seq<Reply<Seq<char>>>,
)
    ensures
        ({
            let flags = Flags { safe_rendering: false, reset_rendering_mode: false };
            let start = booting(reconciled(state_dir, identifier, version, flags, env, pid));
            run(start, base, replies).0 matches Turn::Done(Outcome::Booted(boot)) ==> !(boot
                is Fatal)
        }),
{
    let flags = Flags { safe_rendering: false, reset_rendering_mode: false };
    let start = booting(reconciled(state_dir, identifier, version, flags, env, pid));
    lemma_unfatal(start, base, replies);
}

/// Whether a turn belongs to a relaunch after a crash, and leaves the record as
/// it found it if it comes to nothing.
spec fn relaunching(turn: TaskModel, story: Story) -> bool {
    match turn {
        Turn::Ask(Task::Crash(Crashing::Mint { .. })) => true,
        Turn::Ask(Task::Crash(Crashing::HandOff(_))) => true,
        Turn::Done(Outcome::Answered(response)) => !(response is HandedOff) && story.alone
            && !story.stuck ==> story.disk == story.base,
        _ => false,
    }
}

proof fn lemma_relaunching(
    start: TaskModel,
    base: Option<Record<Seq<char>>>,
    replies: Seq<Reply<Seq<char>>>,
)
    requires
        begins_crash(start),
        relaunching(start, outset(base)),
    ensures
        relaunching(run(start, base, replies).0, run(start, base, replies).1),
    decreases replies.len(),
{
    if replies.len() > 0 {
        let before = replies.drop_last();
        lemma_relaunching(start, base, before);
        lemma_run_fits(start, base, before);
        let (turn, story) = run(start, base, before);
        if let Turn::Ask(Task::Crash(Crashing::HandOff(hand_off))) = turn {
            lemma_hand_off_step(hand_off, story, replies.last());
        }
    }
}

/// A crash with a tier left to try either hands the app over, or leaves the
/// record exactly as it was: a relaunch that was refused is not charged to the
/// ladder. This holds unless somebody else wrote the record meanwhile, or a lock
/// or write failed half-way.
pub proof fn a_refused_relaunch_restores_the_record(
    session: Session<Seq<char>>,
    termination: Termination,
    since_launch: u128,
    base: Option<Record<Seq<char>>>,
    replies: Seq<Reply<Seq<char>>>,
)
    requires
        session.tier < session.package.terminal(),
    ensures
        ({
            let (turn, story) = run(
                crashing(session.answers(termination, since_launch)),
                base,
                replies,
            );
            turn matches Turn::Done(Outcome::Answered(response)) ==> !(response is HandedOff)
                && story.alone && !story.stuck ==> story.disk == base
        }),
{
    let start = crashing(session.answers(termination, since_launch));
    lemma_relaunching(start, base, replies);
    lemma_run_fits(start, base, replies);
}

/// Whether a turn belongs to this session's receipt.
spec fn notes_for(turn: TaskModel, session: Session<Seq<char>>, phase: Phase) -> bool {
    match turn {
        Turn::Ask(Task::Note(task)) => session.episode matches Some(episode) && task.receipt
            == session.receipt(phase, episode),
        Turn::Done(Outcome::Noted) => true,
        _ => false,
    }
}

proof fn lemma_notes_for(
    session: Session<Seq<char>>,
    phase: Phase,
    base: Option<Record<Seq<char>>>,
    replies: Seq<Reply<Seq<char>>>,
)
    ensures
        notes_for(run(noting(session.notes(phase)), base, replies).0, session, phase),
    decreases replies.len(),
{
    if replies.len() > 0 {
        lemma_notes_for(session, phase, base, replies.drop_last());
    }
}

/// A receipt is written only over the record of its own episode, as it was read
/// under the same lock, and only to move it forward. It says what this process
/// runs: its tier, profile, version and pid.
pub proof fn receipts_move_their_own_record_forward(
    session: Session<Seq<char>>,
    phase: Phase,
    base: Option<Record<Seq<char>>>,
    replies: Seq<Reply<Seq<char>>>,
)
    ensures
        ({
            let (turn, story) = run(noting(session.notes(phase)), base, replies);
            turn matches Turn::Ask(task) ==> (task.asks() matches Request::Write(record) ==> {
                &&& session.episode == Some(attempt_of(record))
                &&& record == (Record {
                    unique_name: record.unique_name,
                    bus_id: record.bus_id,
                    ..session.receipt(phase, attempt_of(record))
                })
                &&& story.seen matches Some(Some(current))
                &&& is_current(current, attempt_of(record))
                &&& phase.rank() > current.phase.rank()
            })
        }),
{
    let start = noting(session.notes(phase));
    lemma_notes_for(session, phase, base, replies);
    lemma_run_fits(start, base, replies);
}

/// A child writes its `started` receipt only over the prepared record of the
/// episode its tag names, as it was read under the same lock, and only once it
/// has won the exclusive claim on that very episode.
pub proof fn claims_start_only_what_they_won(
    start: TaskModel,
    base: Option<Record<Seq<char>>>,
    replies: Seq<Reply<Seq<char>>>,
)
    requires
        begins_boot(start),
    ensures
        ({
            let (turn, story) = run(start, base, replies);
            turn matches Turn::Ask(Task::Boot(Booting::Claim(session, task))) ==> (task.asks()
                matches Request::Write(record) ==> {
                &&& story.seen matches Some(Some(found))
                &&& found.phase is Prepared && is_current(found, task.episode)
                &&& story.won == Some(task.episode)
                &&& record == started(found, session.pid)
            })
        }),
{
    lemma_run_fits(start, base, replies);
}

/// Once a handoff has prepared its record and given the lock back, it changes
/// the record only to undo its own: only if the record it has just read under the
/// lock is still the one it wrote. A record that another launch has prepared
/// since is never erased.
pub proof fn rollbacks_undo_only_their_own_record(
    start: TaskModel,
    base: Option<Record<Seq<char>>>,
    replies: Seq<Reply<Seq<char>>>,
)
    requires
        begins(start),
    ensures
        ({
            let (turn, story) = run(start, base, replies);
            turn matches Turn::Ask(task) ==> (hand_off_in(task) matches Some(hand_off) ==> {
                &&& task.asks() is Write || task.asks() is Clear ==> hand_off.stage is Write
                    || hand_off.stage is Restore
                &&& hand_off.stage matches Stage::Restore(attempt, _) ==> {
                    &&& story.seen matches Some(Some(current))
                    &&& is_current(current, attempt.episode)
                }
            })
        }),
{
    lemma_run_fits(start, base, replies);
}

/// Whether a request changes durable state.
pub open spec fn persists(request: Request<Seq<char>>) -> bool {
    request is Write || request is Clear || request is PruneClaims || request is Claim
}

/// Whether a turn belongs to a launch that persists nothing.
spec fn forced(turn: TaskModel) -> bool {
    match turn {
        Turn::Ask(Task::Boot(Booting::HandOff(session, task))) => {
            &&& session.frozen && session.episode is None
            &&& (task.stage matches Stage::Binary(None)) || (task.stage matches Stage::Observe(
                None,
            )) || (task.stage matches Stage::Spawn(None))
            &&& task.attempt.release is NothingHeld
        },
        Turn::Done(Outcome::Booted(boot)) => {
            ||| boot is HandedOff
            ||| boot is Fatal
            ||| boot is Off
            ||| boot matches Boot::Run(session) && session.frozen && session.episode is None
        },
        _ => false,
    }
}

proof fn lemma_forced(
    start: TaskModel,
    base: Option<Record<Seq<char>>>,
    replies: Seq<Reply<Seq<char>>>,
)
    requires
        forced(start),
    ensures
        forced(run(start, base, replies).0),
        run(start, base, replies).1.disk == base,
    decreases replies.len(),
{
    if replies.len() > 0 {
        lemma_forced(start, base, replies.drop_last());
    }
}

/// `--safe-rendering` holds for one launch only: from its start to its outcome,
/// nothing durable is changed, and a process that stays is frozen without an
/// episode.
#[verifier::spinoff_prover]
#[verifier::rlimit(60)]
pub proof fn safe_rendering_persists_nothing(
    state_dir: Result<(), Seq<char>>,
    identifier: Seq<char>,
    version: Seq<char>,
    flags: Flags,
    env: Map<Seq<char>, Seq<char>>,
    pid: u32,
    base: Option<Record<Seq<char>>>,
    replies: Seq<Reply<Seq<char>>>,
)
    requires
        flags.safe_rendering,
        !flags.reset_rendering_mode,
        tag_in(env) is None,
    ensures
        ({
            let (turn, story) = run(
                booting(reconciled(state_dir, identifier, version, flags, env, pid)),
                base,
                replies,
            );
            &&& story.disk == base
            &&& turn matches Turn::Ask(task) ==> !persists(task.asks())
            &&& turn matches Turn::Done(Outcome::Booted(Boot::Run(session))) ==> session.frozen
                && session.episode is None
        }),
{
    let start = booting(reconciled(state_dir, identifier, version, flags, env, pid));
    lemma_forced(start, base, replies);
}

/// A frozen session is inert: it owns no episode, so it writes no receipt, and no
/// crash moves it. Every session that a boot comes to is of this kind if it is
/// frozen.
pub proof fn frozen_sessions_are_inert(
    start: TaskModel,
    base: Option<Record<Seq<char>>>,
    replies: Seq<Reply<Seq<char>>>,
)
    requires
        begins_boot(start),
    ensures
        run(start, base, replies).0 matches Turn::Done(Outcome::Booted(Boot::Run(session))) ==> (
        session.frozen ==> {
            &&& forall|phase: Phase| #[trigger] session.notes(phase) is Done
            &&& session.confirms() is Done
            &&& forall|termination: Termination, since_launch: u128|
                #[trigger] session.answers(termination, since_launch) == Turn::<
                    Crashing<Seq<char>>,
                    CrashResponse,
                >::Done(CrashResponse::Continue)
        }),
{
    an_owner_has_its_receipt(start, base, replies);
}

/// Whether a turn belongs to a child at its claim, which has changed nothing
/// unless it owns its episode.
spec fn claims_or_leaves(turn: TaskModel, story: Story) -> bool {
    match turn {
        Turn::Ask(Task::Boot(Booting::Claim(_, _))) => true,
        Turn::Done(Outcome::Booted(Boot::Run(session))) => session.episode is Some || untouched(
            story,
        ),
        Turn::Done(Outcome::Booted(Boot::Superseded)) => untouched(story) && story.won is None,
        _ => false,
    }
}

proof fn lemma_claims_or_leaves(
    start: TaskModel,
    base: Option<Record<Seq<char>>>,
    replies: Seq<Reply<Seq<char>>>,
)
    requires
        begins_boot(start),
        claims_or_leaves(start, outset(base)),
    ensures
        claims_or_leaves(run(start, base, replies).0, run(start, base, replies).1),
    decreases replies.len(),
{
    if replies.len() > 0 {
        let before = replies.drop_last();
        lemma_claims_or_leaves(start, base, before);
        lemma_run_fits(start, base, before);
        let (turn, story) = run(start, base, before);
        if let Turn::Ask(Task::Boot(Booting::Claim(_, claiming))) = turn {
            lemma_claim_step(claiming, story, replies.last());
        }
    }
}

/// A tagged child that does not come to own its episode writes nothing: whatever
/// turned it away, it has made no record durable, and the record is as it found
/// it. One that another process supersedes has not taken the claim either. A
/// tagged launch ends in no other way than these and as an owner.
pub proof fn a_child_turned_away_writes_nothing(
    identifier: Seq<char>,
    version: Seq<char>,
    flags: Flags,
    env: Map<Seq<char>, Seq<char>>,
    pid: u32,
    base: Option<Record<Seq<char>>>,
    replies: Seq<Reply<Seq<char>>>,
)
    requires
        !flags.reset_rendering_mode,
        tag_in(env) is Some,
    ensures
        ({
            let start = booting(reconciled(Ok(()), identifier, version, flags, env, pid));
            let (turn, story) = run(start, base, replies);
            turn matches Turn::Done(outcome) ==> {
                &&& outcome matches Outcome::Booted(boot)
                &&& boot is Run || boot is Superseded
                &&& !(boot matches Boot::Run(session) && session.episode is Some) ==> story.disk
                    == base && story.durable is None
                &&& boot is Superseded ==> story.won is None
            }
        }),
{
    let start = booting(reconciled(Ok(()), identifier, version, flags, env, pid));
    lemma_claims_or_leaves(start, base, replies);
    lemma_run_fits(start, base, replies);
}

/// Whether `record` is this process's word, for its own episode if it has one,
/// that the ladder is at its end.
pub open spec fn ends_ladder(session: Session<Seq<char>>, record: Record<Seq<char>>) -> bool {
    &&& record == session.receipt(Phase::Exhausted, attempt_of(record))
    &&& session.episode matches Some(episode) ==> attempt_of(record) == episode
}

/// Whether a turn belongs to a crash on the last rung.
spec fn ending_by_crash(turn: TaskModel, session: Session<Seq<char>>, story: Story) -> bool {
    match turn {
        Turn::Ask(Task::Crash(Crashing::ExhaustMint(own))) => own.episode is None && ends_same(
            own,
            session,
        ),
        Turn::Ask(Task::Crash(Crashing::Exhaust(task))) => ends_ladder(session, task.record),
        Turn::Done(Outcome::Answered(response)) => {
            &&& response is Continue
            &&& !story.denied ==> (story.disk matches Some(record) && ends_ladder(session, record))
        },
        _ => false,
    }
}

/// Whether two sessions would end the ladder with the same words.
spec fn ends_same(own: Session<Seq<char>>, session: Session<Seq<char>>) -> bool {
    own == (Session { crashed: own.crashed, ..session })
}

proof fn lemma_ending_by_crash(
    start: TaskModel,
    session: Session<Seq<char>>,
    base: Option<Record<Seq<char>>>,
    replies: Seq<Reply<Seq<char>>>,
)
    requires
        begins_crash(start),
        ending_by_crash(start, session, outset(base)),
    ensures
        ending_by_crash(run(start, base, replies).0, session, run(start, base, replies).1),
    decreases replies.len(),
{
    if replies.len() > 0 {
        let before = replies.drop_last();
        lemma_ending_by_crash(start, session, base, before);
        lemma_run_fits(start, base, before);
        let (turn, story) = run(start, base, before);
        if let Turn::Ask(Task::Crash(Crashing::Exhaust(task))) = turn {
            lemma_exhaust_step(task, story, replies.last());
        }
    }
}

/// The end of the ladder becomes durable: a crash on the last rung lets the app
/// carry on, and unless a lock or write failed, the record then says that the
/// ladder is spent, with this process's pid, tier, profile and version, under its
/// own episode if it has one.
pub proof fn a_crash_on_the_last_rung_ends_the_ladder(
    session: Session<Seq<char>>,
    termination: Termination,
    since_launch: u128,
    base: Option<Record<Seq<char>>>,
    replies: Seq<Reply<Seq<char>>>,
)
    requires
        eligible(termination, since_launch),
        !session.crashed,
        !session.frozen,
        session.tier >= session.package.terminal(),
    ensures
        ({
            let (turn, story) = run(
                crashing(session.answers(termination, since_launch)),
                base,
                replies,
            );
            turn matches Turn::Done(outcome) ==> {
                &&& outcome == Outcome::<Seq<char>, Seq<Seq<char>>>::Answered(
                    CrashResponse::Continue,
                )
                &&& !story.denied ==> (story.disk matches Some(record) && ends_ladder(
                    session,
                    record,
                ))
            }
        }),
{
    let start = crashing(session.answers(termination, since_launch));
    lemma_ending_by_crash(start, session, base, replies);
}

/// Whether `record` is a last attempt with no retry left: it is still under way,
/// or it has failed.
pub open spec fn is_last_attempt(record: Record<Seq<char>>, package: Package) -> bool {
    &&& record.tier >= package.terminal()
    &&& record.phase is Started || record.phase is Owned || (record.phase is Prepared
        && record.generation >= RETRY_GENERATION)
}

/// Whether `record` is an attempt under way, by what a launch of `version` was
/// told of the name, the bus and the child.
pub open spec fn is_under_way(record: Record<Seq<char>>, version: Seq<char>, story: Story) -> bool {
    match story.sight {
        Some(observation) => decision(
            record,
            observation,
            story.bus,
            version,
            story.alive,
        ) is Defer,
        None => false,
    }
}

/// Whether a turn belongs to a launch that finds `last`.
spec fn ending_at_boot(
    turn: TaskModel,
    session: Session<Seq<char>>,
    last: Record<Seq<char>>,
    story: Story,
) -> bool {
    let stopped = Session { tier: last.tier, frozen: true, ..session };
    let under_way = is_under_way(last, session.version, story);
    match turn {
        Turn::Ask(Task::Boot(Booting::Read(own))) => own == session && !story.alive,
        Turn::Ask(Task::Boot(Booting::Observe(own, record))) => own == session && record == last
            && !story.alive,
        Turn::Ask(Task::Boot(Booting::BusId(own, record, observation))) => own == session && record
            == last && story.sight == Some(observation) && !story.alive,
        Turn::Ask(Task::Boot(Booting::Probe(own, record, observation, bus, _))) => own == session
            && record == last && story.sight == Some(observation) && story.bus == bus,
        Turn::Ask(Task::Boot(Booting::ExhaustMint(own))) => own == stopped && !under_way,
        Turn::Ask(Task::Boot(Booting::Exhaust(own, task))) => own == stopped && !under_way
            && ends_ladder(stopped, task.record),
        Turn::Done(Outcome::Booted(Boot::Run(own))) => if under_way {
            own == session && story.disk == story.base
        } else {
            &&& own == stopped
            &&& !story.denied ==> (story.disk matches Some(record) && ends_ladder(stopped, record))
        },
        _ => false,
    }
}

#[verifier::spinoff_prover]
#[verifier::rlimit(60)]
proof fn lemma_ending_at_boot(
    start: TaskModel,
    session: Session<Seq<char>>,
    last: Record<Seq<char>>,
    replies: Seq<Reply<Seq<char>>>,
)
    requires
        begins_boot(start),
        newborn(session),
        ending_at_boot(start, session, last, outset(Some(last))),
        is_last_attempt(last, session.package),
        last.version == session.version,
    ensures
        ({
            let (turn, story) = run(start, Some(last), replies);
            story.alone ==> ending_at_boot(turn, session, last, story)
        }),
    decreases replies.len(),
{
    if replies.len() > 0 {
        let before = replies.drop_last();
        lemma_ending_at_boot(start, session, last, before);
        lemma_run_fits(start, Some(last), before);
        let (turn, story) = run(start, Some(last), before);
        if let Turn::Ask(Task::Boot(Booting::Exhaust(_, task))) = turn {
            lemma_exhaust_step(task, story, replies.last());
        }
    }
}

/// The end of the ladder becomes durable at boot too. A launch that finds a last
/// attempt of its own version runs as it was launched and leaves the record alone
/// if that attempt is under way. If it has failed, the launch runs on frozen at
/// that tier, and unless a lock or write failed, the record then says that the
/// ladder is spent, with this process's pid, tier, profile and version.
pub proof fn a_failed_last_attempt_ends_the_ladder(
    identifier: Seq<char>,
    version: Seq<char>,
    env: Map<Seq<char>, Seq<char>>,
    pid: u32,
    last: Record<Seq<char>>,
    replies: Seq<Reply<Seq<char>>>,
)
    requires
        tag_in(env) is None,
        present_in(launched(identifier, version, env, pid).package.owned(), env).len() == 0,
        is_last_attempt(last, package_in(env)),
        last.version == version,
    ensures
        ({
            let flags = Flags { safe_rendering: false, reset_rendering_mode: false };
            let session = launched(identifier, version, env, pid);
            let stopped = Session { tier: last.tier, frozen: true, ..session };
            let start = booting(reconciled(Ok(()), identifier, version, flags, env, pid));
            let (turn, story) = run(start, Some(last), replies);
            story.alone ==> (turn matches Turn::Done(outcome) ==> if is_under_way(
                last,
                version,
                story,
            ) {
                &&& outcome == Outcome::Booted(Boot::<Seq<char>, Seq<Seq<char>>>::Run(session))
                &&& story.disk == Some(last)
            } else {
                &&& outcome == Outcome::Booted(Boot::<Seq<char>, Seq<Seq<char>>>::Run(stopped))
                &&& !story.denied ==> (story.disk matches Some(record) && ends_ladder(
                    stopped,
                    record,
                ))
            })
        }),
{
    let flags = Flags { safe_rendering: false, reset_rendering_mode: false };
    let session = launched(identifier, version, env, pid);
    let start = booting(reconciled(Ok(()), identifier, version, flags, env, pid));
    lemma_ending_at_boot(start, session, last, replies);
    lemma_run_fits(start, Some(last), replies);
}

/// Nobody is asked after who does not matter: a boot asks whether a process is
/// running only for the record it has found, of this version and started, whose
/// child has not taken the name.
pub proof fn liveness_is_asked_only_where_it_matters(
    start: TaskModel,
    base: Option<Record<Seq<char>>>,
    replies: Seq<Reply<Seq<char>>>,
)
    requires
        begins(start),
    ensures
        run(start, base, replies).0 matches Turn::Ask(task) ==> (task.asks()
            matches Request::Probe { pid } ==> {
            &&& task matches Task::Boot(Booting::Probe(session, record, observation, _, _))
            &&& record.pid == Some(pid) && record.version == session.version
            &&& record.phase is Started && observation is Free
        }),
{
    lemma_run_fits(start, base, replies);
}

/// Whether a turn belongs to a launch that leaves a spent ladder alone.
spec fn leaves_alone(
    turn: TaskModel,
    session: Session<Seq<char>>,
    spent: Record<Seq<char>>,
) -> bool {
    match turn {
        Turn::Ask(Task::Boot(Booting::Read(own))) => own == session,
        Turn::Ask(Task::Boot(Booting::Observe(own, record))) => own == session && record == spent,
        Turn::Ask(Task::Boot(Booting::BusId(own, record, _))) => own == session && record == spent,
        Turn::Done(Outcome::Booted(boot)) => boot == Boot::<Seq<char>, Seq<Seq<char>>>::Run(
            Session { frozen: true, ..session },
        ),
        _ => false,
    }
}

proof fn lemma_leaves_alone(
    session: Session<Seq<char>>,
    spent: Record<Seq<char>>,
    replies: Seq<Reply<Seq<char>>>,
)
    requires
        spent.phase is Exhausted,
        spent.version == session.version,
    ensures
        ({
            let start = TaskModel::Ask(Task::Boot(Booting::Read(session)));
            let (turn, story) = run(start, Some(spent), replies);
            story.alone ==> {
                &&& story.disk == Some(spent) && story.spawned == 0 && !story.released
                &&& leaves_alone(turn, session, spent)
            }
        }),
    decreases replies.len(),
{
    let start = TaskModel::Ask(Task::Boot(Booting::Read(session)));
    if replies.len() > 0 {
        lemma_leaves_alone(session, spent, replies.drop_last());
    }
}

/// A launch that finds a spent ladder of its own version leaves it alone: it
/// writes nothing, takes no lock and spawns no child, it comes to running on at
/// the baseline, and no later crash moves it or changes anything.
pub proof fn a_spent_ladder_is_left_alone(
    identifier: Seq<char>,
    version: Seq<char>,
    env: Map<Seq<char>, Seq<char>>,
    pid: u32,
    spent: Record<Seq<char>>,
    replies: Seq<Reply<Seq<char>>>,
)
    requires
        tag_in(env) is None,
        present_in(launched(identifier, version, env, pid).package.owned(), env).len() == 0,
        spent.phase is Exhausted,
        spent.version == version,
    ensures
        ({
            let flags = Flags { safe_rendering: false, reset_rendering_mode: false };
            let session = launched(identifier, version, env, pid);
            let start = booting(reconciled(Ok(()), identifier, version, flags, env, pid));
            let (turn, story) = run(start, Some(spent), replies);
            let own = Session { frozen: true, ..session };
            &&& story.alone ==> {
                &&& story.disk == Some(spent) && story.spawned == 0 && !story.released
                &&& match turn {
                    Turn::Ask(task) => task.asks() is Read || task.asks() is Observe
                        || task.asks() is BusId,
                    Turn::Done(outcome) => outcome == Outcome::Booted(
                        Boot::<Seq<char>, Seq<Seq<char>>>::Run(own),
                    ),
                }
            }
            &&& forall|termination: Termination, since_launch: u128|
                #[trigger] own.answers(termination, since_launch) == Turn::<
                    Crashing<Seq<char>>,
                    CrashResponse,
                >::Done(CrashResponse::Continue) && own.hit_by(termination, since_launch).frozen
        }),
{
    lemma_leaves_alone(launched(identifier, version, env, pid), spent, replies);
}

// ── Every run ends ──────────────────────────────────────────────────────────

/// Whether `reply` answers `request`.
pub open spec fn answers(request: Request<Seq<char>>, reply: Reply<Seq<char>>) -> bool {
    match request {
        Request::Lock => reply is Locked,
        Request::Unlock | Request::PruneClaims { .. } | Request::Release => reply is Done,
        Request::Read => reply is Found,
        Request::Write(_) => reply is Written,
        Request::Clear => reply is Cleared,
        Request::Claim(_) => reply is Claimed,
        Request::Mint => reply is Minted,
        Request::Observe { .. } => reply is Observed,
        Request::BusId => reply is Bus,
        Request::Probe { .. } => reply is Alive,
        Request::Binary => reply is Located,
        Request::Spawn { .. } => reply is Spawned,
    }
}

spec fn hand_off_left(task: HandOff<Seq<char>>) -> nat {
    match task.stage {
        Stage::Lock(_) => 13,
        Stage::Read(_) => 12,
        Stage::Write(_) => 11,
        Stage::Prune(_) => 10,
        Stage::Unlock(_) => 9,
        Stage::Binary(_) => 8,
        Stage::Release(_) => 7,
        Stage::Observe(_) => 6,
        Stage::Spawn(_) => 5,
        Stage::Relock(_, _) => 4,
        Stage::Reread(_, _) => 3,
        Stage::Restore(_, _) => 2,
        Stage::Abandon(_) | Stage::Reunlock(_) => 1,
    }
}

spec fn exhaust_left(task: Exhausting<Seq<char>>) -> nat {
    match task.stage {
        ExhaustStage::Lock => 3,
        ExhaustStage::Write => 2,
        ExhaustStage::Unlock => 1,
    }
}

spec fn claim_left(task: Claiming<Seq<char>>) -> nat {
    match task.stage {
        ClaimStage::Lock => 5,
        ClaimStage::Read => 4,
        ClaimStage::Claim(_) => 3,
        ClaimStage::Write(_) => 2,
        ClaimStage::Unlock(_) => 1,
    }
}

spec fn note_left(task: Noting<Seq<char>>) -> nat {
    match task.stage {
        NoteStage::Lock => 6,
        NoteStage::Read => 5,
        NoteStage::Observe => 4,
        NoteStage::BusId { .. } => 3,
        NoteStage::Write(_) => 2,
        NoteStage::Unlock => 1,
    }
}

spec fn boot_left(task: Booting<Seq<char>>) -> nat {
    match task {
        Booting::Read(_) => 18,
        Booting::Observe(_, _) => 17,
        Booting::BusId(_, _, _) => 16,
        Booting::Probe(_, _, _, _, _) => 15,
        Booting::Mint(_) => 14,
        Booting::HandOff(_, task) => hand_off_left(task),
        Booting::ExhaustMint(_) => 4,
        Booting::Exhaust(_, task) => exhaust_left(task),
        Booting::Claim(_, task) => claim_left(task),
        Booting::ResetLock | Booting::DiscardLock(_) => 3,
        Booting::ResetClear | Booting::DiscardClear(_) => 2,
        Booting::ResetUnlock { .. } | Booting::DiscardUnlock(_) => 1,
    }
}

/// At most how many answers a task still waits for.
spec fn left(turn: TaskModel) -> nat {
    match turn {
        Turn::Ask(Task::Boot(task)) => boot_left(task),
        Turn::Ask(Task::Crash(Crashing::Mint { .. })) => 14,
        Turn::Ask(Task::Crash(Crashing::HandOff(task))) => hand_off_left(task),
        Turn::Ask(Task::Crash(Crashing::ExhaustMint(_))) => 4,
        Turn::Ask(Task::Crash(Crashing::Exhaust(task))) => exhaust_left(task),
        Turn::Ask(Task::Note(task)) => note_left(task),
        Turn::Done(_) => 0,
    }
}

proof fn lemma_hand_off_left(task: HandOff<Seq<char>>, reply: Reply<Seq<char>>)
    requires
        answers(task.asks(), reply),
    ensures
        task.next(reply) matches Turn::Ask(next) ==> hand_off_left(next) < hand_off_left(task),
{
}

proof fn lemma_boot_left(session: Session<Seq<char>>)
    requires
        bare(session),
    ensures
        session.runs_selected_tier() matches Turn::Ask(next) ==> boot_left(next) <= 14,
        session.tier == 0 ==> session.runs_selected_tier() is Done,
        forall|record: Record<Seq<char>>, decision: Decision<Seq<char>>|
            (#[trigger] session.acts_on(record, decision)) matches Turn::Ask(next) ==> boot_left(
                next,
            ) <= 14,
{
}

/// Each answer takes a task further.
proof fn lemma_answers_make_progress(task: Task<Seq<char>>, story: Story, reply: Reply<Seq<char>>)
    requires
        fits(Turn::Ask(task), story),
        answers(task.asks(), reply),
    ensures
        left(task.next(reply)) < left(Turn::Ask(task)),
{
    if let Some(hand_off) = hand_off_in(task) {
        lemma_hand_off_left(hand_off, reply);
    }
    if let Task::Boot(boot) = task {
        match boot {
            Booting::Read(session) => lemma_boot_left(session),
            Booting::BusId(session, _, _) => lemma_boot_left(session),
            Booting::Probe(session, _, _, _, _) => lemma_boot_left(session),
            Booting::DiscardLock(session) => lemma_boot_left(session),
            Booting::DiscardUnlock(session) => lemma_boot_left(session),
            _ => {},
        }
    }
}

/// Whether every reply of a run answers what was asked.
pub open spec fn answered(
    start: TaskModel,
    base: Option<Record<Seq<char>>>,
    replies: Seq<Reply<Seq<char>>>,
) -> bool
    decreases replies.len(),
{
    replies.len() > 0 ==> {
        &&& answered(start, base, replies.drop_last())
        &&& run(start, base, replies.drop_last()).0 matches Turn::Ask(task) ==> answers(
            task.asks(),
            replies.last(),
        )
    }
}

proof fn lemma_run_left(
    start: TaskModel,
    base: Option<Record<Seq<char>>>,
    replies: Seq<Reply<Seq<char>>>,
)
    requires
        begins(start),
        answered(start, base, replies),
    ensures
        run(start, base, replies).0 is Done || left(run(start, base, replies).0) + replies.len()
            <= 18,
    decreases replies.len(),
{
    if replies.len() > 0 {
        let before = replies.drop_last();
        lemma_run_left(start, base, before);
        lemma_run_fits(start, base, before);
        let (turn, story) = run(start, base, before);
        if let Turn::Ask(task) = turn {
            lemma_answers_make_progress(task, story, replies.last());
        }
    }
}

/// No task asks forever: whatever the answers are, a host that answers has to
/// answer at most eighteen times.
pub proof fn every_run_ends(
    start: TaskModel,
    base: Option<Record<Seq<char>>>,
    replies: Seq<Reply<Seq<char>>>,
)
    requires
        begins(start),
        answered(start, base, replies),
        replies.len() >= 18,
    ensures
        run(start, base, replies).0 is Done,
{
    lemma_run_left(start, base, replies);
}

} // verus!
