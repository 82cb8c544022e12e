//! Why things went the way they went, for whoever reads the log.
//!
//! A task's outcome says what to do next, not what led to it. What is worth
//! telling of a turn is told here, from the task and the reply it is about to
//! take, so that the host can write it down beside the outcome.

use super::claim::{Claimed, Claiming, ClaimStage};
use super::classify::{decision, doubtful_pid, pid_to_probe, Decision};
use super::cli::{flags_in, parse, readable, Flags, SAFE_RENDERING};
use super::dbus::Observation;
use super::episode::{
    advances, advances_ladder, eligible, is_current, may_advance, profile_name, same_episode,
    Episode, Termination,
};
use super::hand_off::{missing_tier, no_such_tier, HandOff, Release, Stage};
use super::launcher::{probe_name, tag_in, Handoff, Refusal, Tag};
use super::outcomes::{configured, last_rung, lemma_configured};
use super::profiles::{
    a_name_stands_for_its_rung, owned_present, package_in, present_in, tier_name, Env, Package,
};
use super::protocol::{settled, Reply, Request, Turn};
use super::receipt::{attempt_of, ExhaustStage, Exhausting, NoteStage, Noting};
use super::run::hand_off_in;
use super::session::{judge, BootModel, Booting, Crashing, Session};
use super::state::{Claim, Phase, Record};
use super::task::Task;
use crate::text::{decimal, labelled, lemma_says, numeral, opt, says, texts};
use vstd::prelude::*;

verus! {

/// Something worth telling.
#[derive(Debug, PartialEq, Eq)]
pub enum Remark<S = String, R = &'static str> {
    /// `--safe-rendering` takes effect.
    Forcing { package: Package },
    /// A tag names a profile this package does not have.
    UnknownProfile(S),
    /// What a launch makes of the record it found.
    Found { record: Record<S>, decision: Decision<R> },
    /// The ladder was spent before this launch.
    AlreadyExhausted { package: Package, tier: usize },
    /// A boot's handoff was refused.
    Staying(Refusal<S>),
    /// A live app's handoff was refused while it still held its name.
    Refused(Refusal<S>),
    /// A live app's handoff was refused after its name was gone.
    Stranded(Refusal<S>),
    /// A record could not be made durable.
    WriteFailed { phase: Phase, error: S },
    /// A child's first receipt could not be made durable.
    StartedFailed(S),
    /// A prepared record could not be put back.
    RollbackUnlocked,
    RollbackStale,
    /// A child is not the owner of its episode.
    NotOwner(S),
    /// A child runs on without an episode.
    NotTracked(S),
    ClaimFailed(S),
    /// A receipt was not written.
    ReceiptUnlocked(Phase),
    ReceiptStale(Phase),
    /// A receipt is written that names no connection.
    ReceiptAnonymous(Phase),
    /// The end of the ladder.
    Exhausted { package: Package, tier: usize, profile: S },
    ExhaustUnlocked,
    /// A termination that is not acted on.
    NotEligible { termination: Termination, elapsed: S, tier: usize, profile: S },
    AlreadyHandled,
    ForcedProfile,
}

/// A remark as its view sees it.
pub type RemarkModel = Remark<Seq<char>, Seq<char>>;

impl View for Remark<String, &'static str> {
    type V = Remark<Seq<char>, Seq<char>>;

    open spec fn view(&self) -> Remark<Seq<char>, Seq<char>> {
        match self {
            Remark::Forcing { package } => Remark::Forcing { package: *package },
            Remark::UnknownProfile(profile) => Remark::UnknownProfile(profile@),
            Remark::Found { record, decision } => Remark::Found {
                record: record@,
                decision: decision@,
            },
            Remark::AlreadyExhausted { package, tier } => Remark::AlreadyExhausted {
                package: *package,
                tier: *tier,
            },
            Remark::Staying(refusal) => Remark::Staying(refusal@),
            Remark::Refused(refusal) => Remark::Refused(refusal@),
            Remark::Stranded(refusal) => Remark::Stranded(refusal@),
            Remark::WriteFailed { phase, error } => Remark::WriteFailed {
                phase: *phase,
                error: error@,
            },
            Remark::StartedFailed(error) => Remark::StartedFailed(error@),
            Remark::RollbackUnlocked => Remark::RollbackUnlocked,
            Remark::RollbackStale => Remark::RollbackStale,
            Remark::NotOwner(reason) => Remark::NotOwner(reason@),
            Remark::NotTracked(reason) => Remark::NotTracked(reason@),
            Remark::ClaimFailed(error) => Remark::ClaimFailed(error@),
            Remark::ReceiptUnlocked(phase) => Remark::ReceiptUnlocked(*phase),
            Remark::ReceiptStale(phase) => Remark::ReceiptStale(*phase),
            Remark::ReceiptAnonymous(phase) => Remark::ReceiptAnonymous(*phase),
            Remark::Exhausted { package, tier, profile } => Remark::Exhausted {
                package: *package,
                tier: *tier,
                profile: profile@,
            },
            Remark::ExhaustUnlocked => Remark::ExhaustUnlocked,
            Remark::NotEligible { termination, elapsed, tier, profile } => Remark::NotEligible {
                termination: *termination,
                elapsed: elapsed@,
                tier: *tier,
                profile: profile@,
            },
            Remark::AlreadyHandled => Remark::AlreadyHandled,
            Remark::ForcedProfile => Remark::ForcedProfile,
        }
    }
}

/// Remarks, each as its view sees it.
pub open spec fn remarks_of(list: Seq<Remark>) -> Seq<RemarkModel> {
    list.map_values(|remark: Remark| remark@)
}

// ── What a turn is worth telling ────────────────────────────────────────────

impl HandOff<Seq<char>> {
    /// What there is to tell of a rollback that goes wrong.
    pub open spec fn tells_of_rollback(self, reply: Reply<Seq<char>>) -> Option<RemarkModel> {
        match (self.stage, reply) {
            (Stage::Relock(_, _), Reply::Locked(Err(_))) => Some(Remark::RollbackUnlocked),
            (Stage::Reread(prepared, _), Reply::Found(found)) => if found matches Some(current)
                && is_current(current, prepared.episode) {
                None
            } else {
                Some(Remark::RollbackStale)
            },
            (Stage::Restore(prepared, _), Reply::Written(Err(error))) => match prepared.previous {
                Some(record) => Some(Remark::WriteFailed { phase: record.phase, error }),
                None => None,
            },
            _ => None,
        }
    }

    /// What there is to tell of how a handoff ended. A boot that ends on the far
    /// side of a release says so in its outcome.
    pub open spec fn tells_of_end(self, handoff: Handoff<Seq<char>>) -> Option<RemarkModel> {
        match (handoff, self.attempt.release) {
            (Handoff::RefusedBeforeRelease(refusal), Release::NothingHeld) => Some(
                Remark::Staying(refusal),
            ),
            (Handoff::RefusedBeforeRelease(refusal), Release::SingleInstanceName) => Some(
                Remark::Refused(refusal),
            ),
            (Handoff::RefusedAfterRelease(refusal), Release::SingleInstanceName) => Some(
                Remark::Stranded(refusal),
            ),
            _ => None,
        }
    }

    /// What there is to tell of this reply: of the rollback first, and of the
    /// refusal once the handoff is at its end.
    pub open spec fn tells(self, reply: Reply<Seq<char>>) -> Seq<RemarkModel> {
        listed(self.tells_of_rollback(reply)) + (match self.next(reply) {
            Turn::Done(handoff) => listed(self.tells_of_end(handoff)),
            Turn::Ask(_) => seq![],
        })
    }
}

impl Claiming<Seq<char>> {
    /// What there is to tell of this reply.
    pub open spec fn tells(self, reply: Reply<Seq<char>>) -> Option<RemarkModel> {
        match (self.stage, reply) {
            (ClaimStage::Lock, Reply::Locked(Err(_))) => Some(
                Remark::NotTracked("the state lock was unavailable"@),
            ),
            (ClaimStage::Claim(_), Reply::Claimed(Claim::Failed(error))) => Some(
                Remark::ClaimFailed(error),
            ),
            (ClaimStage::Write(_), Reply::Written(Err(error))) => Some(
                Remark::StartedFailed(error),
            ),
            (ClaimStage::Unlock(Claimed::Superseded(reason)), Reply::Done) => Some(
                Remark::NotOwner(reason),
            ),
            (ClaimStage::Unlock(Claimed::Untracked(reason)), Reply::Done) => Some(
                Remark::NotTracked(reason),
            ),
            _ => None,
        }
    }
}

impl Noting<Seq<char>> {
    /// What there is to tell of this reply.
    pub open spec fn tells(self, reply: Reply<Seq<char>>) -> Option<RemarkModel> {
        let phase = self.receipt.phase;
        match (self.stage, reply) {
            (NoteStage::Lock, Reply::Locked(Err(_))) => Some(Remark::ReceiptUnlocked(phase)),
            (NoteStage::Read, Reply::Found(found)) => if advances(
                found,
                attempt_of(self.receipt),
                phase,
            ) {
                None
            } else {
                Some(Remark::ReceiptStale(phase))
            },
            (NoteStage::Observe, Reply::Observed(observation)) => if observation is Owned {
                None
            } else {
                Some(Remark::ReceiptAnonymous(phase))
            },
            (NoteStage::Write(record), Reply::Written(Err(error))) => Some(
                Remark::WriteFailed { phase: record.phase, error },
            ),
            _ => None,
        }
    }
}

impl Exhausting<Seq<char>> {
    /// That the ladder is at its end.
    pub open spec fn end(self) -> RemarkModel {
        Remark::Exhausted {
            package: self.package,
            tier: self.record.tier,
            profile: self.record.profile,
        }
    }

    /// What there is to tell of this reply.
    pub open spec fn tells(self, reply: Reply<Seq<char>>) -> Seq<RemarkModel> {
        match (self.stage, reply) {
            (ExhaustStage::Lock, Reply::Locked(Err(_))) => seq![Remark::ExhaustUnlocked],
            (ExhaustStage::Write, Reply::Written(Err(error))) => seq![
                Remark::WriteFailed { phase: self.record.phase, error },
                self.end(),
            ],
            (ExhaustStage::Write, Reply::Written(Ok(()))) => seq![self.end()],
            _ => seq![],
        }
    }
}

/// One remark or none, as a list.
pub open spec fn listed(remark: Option<RemarkModel>) -> Seq<RemarkModel> {
    match remark {
        Some(remark) => seq![remark],
        None => seq![],
    }
}

impl Session<Seq<char>> {
    /// What there is to tell of a decision on a record.
    pub open spec fn tells_of(
        self,
        record: Record<Seq<char>>,
        decision: Decision<Seq<char>>,
    ) -> Seq<RemarkModel> {
        let found = Remark::Found { record, decision };
        match decision {
            Decision::StopExhausted { tier } => seq![
                found,
                Remark::AlreadyExhausted { package: self.package, tier },
            ],
            Decision::RetrySameTier { tier, .. } => if tier >= self.package.rungs() {
                seq![found, Remark::Staying(missing_tier(self.package, tier))]
            } else {
                seq![found]
            },
            _ => seq![found],
        }
    }

    /// What there is to tell of a termination that is not acted on.
    pub open spec fn tells_of_termination(
        self,
        termination: Termination,
        since_launch: u128,
        elapsed: Seq<char>,
    ) -> Option<RemarkModel> {
        if !eligible(termination, since_launch) {
            Some(
                Remark::NotEligible {
                    termination,
                    elapsed,
                    tier: self.tier,
                    profile: self.profile(),
                },
            )
        } else if self.crashed {
            Some(Remark::AlreadyHandled)
        } else if self.frozen {
            Some(Remark::ForcedProfile)
        } else {
            None
        }
    }
}

impl Booting<Seq<char>> {
    /// What there is to tell of this reply.
    pub open spec fn tells(self, reply: Reply<Seq<char>>) -> Seq<RemarkModel> {
        match (self, reply) {
            (Booting::BusId(session, record, observation), Reply::Bus(bus_id)) => if doubtful_pid(
                record,
                observation,
                session.version,
            ) is None {
                session.tells_of(
                    record,
                    decision(record, observation, bus_id, session.version, false),
                )
            } else {
                seq![]
            },
            (
                Booting::Probe(session, record, observation, bus_id, _),
                Reply::Alive(alive),
            ) => session.tells_of(
                record,
                decision(record, observation, bus_id, session.version, alive),
            ),
            (Booting::Mint(session), Reply::Minted(_)) => if session.tier
                >= session.package.rungs() {
                seq![Remark::Staying(missing_tier(session.package, session.tier))]
            } else {
                seq![]
            },
            (Booting::HandOff(_, task), reply) => task.tells(reply),
            (Booting::Exhaust(_, task), reply) => task.tells(reply),
            (Booting::Claim(_, task), reply) => listed(task.tells(reply)),
            _ => seq![],
        }
    }
}

impl Crashing<Seq<char>> {
    /// What there is to tell of this reply.
    pub open spec fn tells(self, reply: Reply<Seq<char>>) -> Seq<RemarkModel> {
        match self {
            Crashing::HandOff(task) => task.tells(reply),
            Crashing::Exhaust(task) => task.tells(reply),
            _ => seq![],
        }
    }
}

impl Task<Seq<char>> {
    /// What there is to tell of this reply.
    pub open spec fn tells(self, reply: Reply<Seq<char>>) -> Seq<RemarkModel> {
        match self {
            Task::Boot(task) => task.tells(reply),
            Task::Crash(task) => task.tells(reply),
            Task::Note(task) => listed(task.tells(reply)),
        }
    }
}

/// What there is to tell of how a launch begins.
pub open spec fn tells_of_boot(
    state_dir: Result<(), Seq<char>>,
    flags: Flags,
    env: Map<Seq<char>, Seq<char>>,
) -> Option<RemarkModel> {
    let package = package_in(env);
    if state_dir is Err || flags.reset_rendering_mode {
        None
    } else {
        match tag_in(env) {
            Some(tag) => if package.named(tag.profile) is None {
                Some(Remark::UnknownProfile(tag.profile))
            } else {
                None
            },
            None => if flags.safe_rendering && present_in(package.owned(), env).len() == 0 {
                Some(Remark::Forcing { package })
            } else {
                None
            },
        }
    }
}

// ── Telling it ──────────────────────────────────────────────────────────────

impl HandOff<String> {
    /// How this handoff ends with `reply`, if it does.
    fn ending(&self, reply: &Reply) -> (handoff: Option<Handoff>)
        ensures
            opt(handoff) == (match self@.next(reply@) {
                Turn::Done(handoff) => Some(handoff),
                Turn::Ask(_) => None,
            }),
    {
        match (&self.stage, reply) {
            (Stage::Lock(_), Reply::Locked(Err(error))) => Some(
                Handoff::RefusedBeforeRelease(Refusal::StateNotDurable(error.clone())),
            ),
            (Stage::Abandon(error), Reply::Done) => Some(
                Handoff::RefusedBeforeRelease(Refusal::StateNotDurable(error.clone())),
            ),
            (Stage::Binary(None), Reply::Located(Err(error))) => Some(
                Handoff::RefusedBeforeRelease(Refusal::NoBinary(error.clone())),
            ),
            (Stage::Observe(None), Reply::Observed(observation)) => match probe_name(observation) {
                Some(refusal) => Some(self.attempt.turn_down(refusal)),
                None => None,
            },
            (Stage::Spawn(_), Reply::Spawned(Ok(_))) => Some(Handoff::Launched),
            (Stage::Spawn(None), Reply::Spawned(Err(error))) => Some(
                self.attempt.turn_down(Refusal::SpawnFailed(error.clone())),
            ),
            (Stage::Relock(_, handoff), Reply::Locked(Err(_))) => Some(handoff.clone()),
            (Stage::Reunlock(handoff), Reply::Done) => Some(handoff.clone()),
            _ => None,
        }
    }

    fn rollback_remark(&self, reply: &Reply) -> (remark: Option<Remark>)
        ensures
            opt(remark) == self@.tells_of_rollback(reply@),
    {
        match (&self.stage, reply) {
            (Stage::Relock(_, _), Reply::Locked(Err(_))) => Some(Remark::RollbackUnlocked),
            (Stage::Reread(prepared, _), Reply::Found(found)) => {
                let ours = match found {
                    Some(current) => same_episode(current, &prepared.episode),
                    None => false,
                };
                if ours {
                    None
                } else {
                    Some(Remark::RollbackStale)
                }
            },
            (Stage::Restore(prepared, _), Reply::Written(Err(error))) => match &prepared.previous {
                Some(record) => Some(
                    Remark::WriteFailed { phase: record.phase, error: error.clone() },
                ),
                None => None,
            },
            _ => None,
        }
    }

    fn end_remark(&self, handoff: Handoff) -> (remark: Option<Remark>)
        ensures
            opt(remark) == self@.tells_of_end(handoff@),
    {
        match (handoff, self.attempt.release) {
            (Handoff::RefusedBeforeRelease(refusal), Release::NothingHeld) => Some(
                Remark::Staying(refusal),
            ),
            (Handoff::RefusedBeforeRelease(refusal), Release::SingleInstanceName) => Some(
                Remark::Refused(refusal),
            ),
            (Handoff::RefusedAfterRelease(refusal), Release::SingleInstanceName) => Some(
                Remark::Stranded(refusal),
            ),
            _ => None,
        }
    }

    /// What there is to tell of `reply`.
    pub fn remarks(&self, reply: &Reply) -> (remarks: Vec<Remark>)
        ensures
            remarks_of(remarks@) == self@.tells(reply@),
    {
        let mut remarks = list(self.rollback_remark(reply));
        let end = match self.ending(reply) {
            Some(handoff) => self.end_remark(handoff),
            None => None,
        };
        let ghost before = remarks@;
        if let Some(remark) = end {
            remarks.push(remark);
        }
        assert(remarks_of(remarks@) =~= remarks_of(before) + listed(opt(end)));
        remarks
    }
}

impl Claiming<String> {
    /// What there is to tell of `reply`.
    pub fn remark(&self, reply: &Reply) -> (remark: Option<Remark>)
        ensures
            opt(remark) == self@.tells(reply@),
    {
        match (&self.stage, reply) {
            (ClaimStage::Lock, Reply::Locked(Err(_))) => Some(
                Remark::NotTracked("the state lock was unavailable".to_owned()),
            ),
            (ClaimStage::Claim(_), Reply::Claimed(Claim::Failed(error))) => Some(
                Remark::ClaimFailed(error.clone()),
            ),
            (ClaimStage::Write(_), Reply::Written(Err(error))) => Some(
                Remark::StartedFailed(error.clone()),
            ),
            (ClaimStage::Unlock(Claimed::Superseded(reason)), Reply::Done) => Some(
                Remark::NotOwner(reason.clone()),
            ),
            (ClaimStage::Unlock(Claimed::Untracked(reason)), Reply::Done) => Some(
                Remark::NotTracked(reason.clone()),
            ),
            _ => None,
        }
    }
}

impl Noting<String> {
    /// What there is to tell of `reply`.
    pub fn remark(&self, reply: &Reply) -> (remark: Option<Remark>)
        ensures
            opt(remark) == self@.tells(reply@),
    {
        let phase = self.receipt.phase;
        match (&self.stage, reply) {
            (NoteStage::Lock, Reply::Locked(Err(_))) => Some(Remark::ReceiptUnlocked(phase)),
            (NoteStage::Read, Reply::Found(found)) => {
                let episode = Episode {
                    token: self.receipt.token.clone(),
                    generation: self.receipt.generation,
                };
                if may_advance(found.as_ref(), &episode, phase) {
                    None
                } else {
                    Some(Remark::ReceiptStale(phase))
                }
            },
            (NoteStage::Observe, Reply::Observed(observation)) => match observation {
                Observation::Owned(_) => None,
                _ => Some(Remark::ReceiptAnonymous(phase)),
            },
            (NoteStage::Write(record), Reply::Written(Err(error))) => Some(
                Remark::WriteFailed { phase: record.phase, error: error.clone() },
            ),
            _ => None,
        }
    }
}

impl Exhausting<String> {
    /// What there is to tell of `reply`.
    pub fn remarks(&self, reply: &Reply) -> (remarks: Vec<Remark>)
        ensures
            remarks_of(remarks@) == self@.tells(reply@),
    {
        let mut remarks: Vec<Remark> = Vec::new();
        match (self.stage, reply) {
            (ExhaustStage::Lock, Reply::Locked(Err(_))) => {
                remarks.push(Remark::ExhaustUnlocked);
            },
            (ExhaustStage::Write, Reply::Written(result)) => {
                if let Err(error) = result {
                    remarks.push(
                        Remark::WriteFailed { phase: self.record.phase, error: error.clone() },
                    );
                }
                remarks.push(
                    Remark::Exhausted {
                        package: self.package,
                        tier: self.record.tier,
                        profile: self.record.profile.clone(),
                    },
                );
            },
            _ => {},
        }
        assert(remarks_of(remarks@) =~= self@.tells(reply@));
        remarks
    }
}

fn list(remark: Option<Remark>) -> (remarks: Vec<Remark>)
    ensures
        remarks_of(remarks@) == listed(opt(remark)),
{
    let mut remarks: Vec<Remark> = Vec::new();
    if let Some(remark) = remark {
        remarks.push(remark);
    }
    assert(remarks_of(remarks@) =~= listed(opt(remark)));
    remarks
}

impl Session<String> {
    fn remark_on(&self, record: &Record, decision: Decision) -> (remarks: Vec<Remark>)
        ensures
            remarks_of(remarks@) == self@.tells_of(record@, decision@),
    {
        let second = match &decision {
            Decision::StopExhausted { tier } => Some(
                Remark::AlreadyExhausted { package: self.package, tier: *tier },
            ),
            Decision::RetrySameTier { reason: _, tier } => if *tier
                > self.package.terminal_tier() {
                Some(Remark::Staying(no_such_tier(self.package, *tier)))
            } else {
                None
            },
            _ => None,
        };
        let mut remarks: Vec<Remark> = Vec::new();
        remarks.push(Remark::Found { record: record.clone(), decision });
        if let Some(second) = second {
            remarks.push(second);
        }
        assert(remarks_of(remarks@) =~= self@.tells_of(record@, decision@));
        remarks
    }

    /// What there is to tell of a termination, `since_launch` nanoseconds into
    /// this process, which reads as `elapsed`: why it is not acted on.
    pub fn termination_remark(
        &self,
        termination: Termination,
        since_launch: u128,
        elapsed: &str,
    ) -> (remark: Option<Remark>)
        ensures
            opt(remark) == self@.tells_of_termination(termination, since_launch, elapsed@),
    {
        if !advances_ladder(termination, since_launch) {
            Some(
                Remark::NotEligible {
                    termination,
                    elapsed: elapsed.to_owned(),
                    tier: self.tier,
                    profile: self.profile_name().to_owned(),
                },
            )
        } else if self.crashed {
            Some(Remark::AlreadyHandled)
        } else if self.frozen {
            Some(Remark::ForcedProfile)
        } else {
            None
        }
    }
}

impl Booting<String> {
    /// What there is to tell of `reply`.
    pub fn remarks(&self, reply: &Reply) -> (remarks: Vec<Remark>)
        ensures
            remarks_of(remarks@) == self@.tells(reply@),
    {
        match (self, reply) {
            (Booting::BusId(session, record, observation), Reply::Bus(bus_id)) => {
                match pid_to_probe(record, observation, session.version.as_str()) {
                    None => {
                        let decision = judge(session, record, observation, bus_id, false);
                        session.remark_on(record, decision)
                    },
                    Some(_) => list(None),
                }
            },
            (Booting::Probe(session, record, observation, bus_id, _), Reply::Alive(alive)) => {
                let decision = judge(session, record, observation, bus_id, *alive);
                session.remark_on(record, decision)
            },
            (Booting::Mint(session), Reply::Minted(_)) => if session.tier
                > session.package.terminal_tier() {
                list(Some(Remark::Staying(no_such_tier(session.package, session.tier))))
            } else {
                list(None)
            },
            (Booting::HandOff(_, task), reply) => task.remarks(reply),
            (Booting::Exhaust(_, task), reply) => task.remarks(reply),
            (Booting::Claim(_, task), reply) => list(task.remark(reply)),
            _ => list(None),
        }
    }
}

impl Crashing<String> {
    /// What there is to tell of `reply`.
    pub fn remarks(&self, reply: &Reply) -> (remarks: Vec<Remark>)
        ensures
            remarks_of(remarks@) == self@.tells(reply@),
    {
        match self {
            Crashing::HandOff(task) => task.remarks(reply),
            Crashing::Exhaust(task) => task.remarks(reply),
            _ => list(None),
        }
    }
}

impl Task<String> {
    /// What there is to tell of `reply`, before the next turn is taken with it.
    pub fn remarks(&self, reply: &Reply) -> (remarks: Vec<Remark>)
        ensures
            remarks_of(remarks@) == self@.tells(reply@),
    {
        match self {
            Task::Boot(task) => task.remarks(reply),
            Task::Crash(task) => task.remarks(reply),
            Task::Note(task) => list(task.remark(reply)),
        }
    }
}

/// What there is to tell of how a launch begins.
pub fn boot_remark(
    state_dir: &Result<(), String>,
    args: &Vec<Option<String>>,
    env: &Env,
) -> (remark: Option<Remark>)
    ensures
        opt(remark) == tells_of_boot(settled(*state_dir), flags_in(readable(args@)), env@),
{
    let flags = parse(args);
    if state_dir.is_err() || flags.reset_rendering_mode {
        return None;
    }
    let package = Package::detect(env);
    match Tag::read(env) {
        Some(tag) => if package.tier_named(tag.profile.as_str()).is_none() {
            Some(Remark::UnknownProfile(tag.profile))
        } else {
            None
        },
        None => {
            let present = owned_present(package, env);
            assert(present@.len() == texts(present@).len());
            if flags.safe_rendering && present.len() == 0 {
                Some(Remark::Forcing { package })
            } else {
                None
            }
        },
    }
}

// ── In words ────────────────────────────────────────────────────────────────

/// The name of a phase.
pub open spec fn phase_text(phase: Phase) -> Seq<char> {
    match phase {
        Phase::Prepared => "Prepared"@,
        Phase::Started => "Started"@,
        Phase::Owned => "Owned"@,
        Phase::Confirmed => "Confirmed"@,
        Phase::Exhausted => "Exhausted"@,
    }
}

fn phase_name(phase: Phase) -> (name: &'static str)
    ensures
        name@ == phase_text(phase),
{
    match phase {
        Phase::Prepared => "Prepared",
        Phase::Started => "Started",
        Phase::Owned => "Owned",
        Phase::Confirmed => "Confirmed",
        Phase::Exhausted => "Exhausted",
    }
}

/// A reason in quotes.
pub open spec fn quoted(reason: Seq<char>) -> Seq<char> {
    "\""@ + reason + "\""@
}

/// A decision and what it is about.
pub open spec fn decision_text(decision: Decision<Seq<char>>) -> Seq<char> {
    match decision {
        Decision::Defer(reason) => "Defer("@ + quoted(reason) + ")"@,
        Decision::RetrySameTier { reason, tier } => "RetrySameTier { reason: "@ + quoted(reason)
            + ", tier: "@ + numeral(tier as nat) + " }"@,
        Decision::AdvanceOrStop { reason, tier } => "AdvanceOrStop { reason: "@ + quoted(reason)
            + ", tier: "@ + numeral(tier as nat) + " }"@,
        Decision::ReuseProfile { tier } => "ReuseProfile { tier: "@ + numeral(tier as nat)
            + " }"@,
        Decision::StopExhausted { tier } => "StopExhausted { tier: "@ + numeral(tier as nat)
            + " }"@,
        Decision::DiscardAndBaseline { reason } => "DiscardAndBaseline { reason: "@ + quoted(
            reason,
        ) + " }"@,
    }
}

fn in_quotes(reason: &str) -> (text: String)
    ensures
        text@ == quoted(reason@),
{
    labelled("\"", reason).concat("\"")
}

fn decision_words(decision: &Decision) -> (words: String)
    ensures
        words@ == decision_text(decision@),
{
    match decision {
        Decision::Defer(reason) => labelled("Defer(", in_quotes(reason).as_str()).concat(")"),
        Decision::RetrySameTier { reason, tier } => labelled(
            "RetrySameTier { reason: ",
            in_quotes(reason).as_str(),
        ).concat(", tier: ").concat(decimal(*tier).as_str()).concat(" }"),
        Decision::AdvanceOrStop { reason, tier } => labelled(
            "AdvanceOrStop { reason: ",
            in_quotes(reason).as_str(),
        ).concat(", tier: ").concat(decimal(*tier).as_str()).concat(" }"),
        Decision::ReuseProfile { tier } => labelled(
            "ReuseProfile { tier: ",
            decimal(*tier).as_str(),
        ).concat(" }"),
        Decision::StopExhausted { tier } => labelled(
            "StopExhausted { tier: ",
            decimal(*tier).as_str(),
        ).concat(" }"),
        Decision::DiscardAndBaseline { reason } => labelled(
            "DiscardAndBaseline { reason: ",
            in_quotes(reason).as_str(),
        ).concat(" }"),
    }
}

/// How to get to the safest profile by hand.
pub open spec fn way_out() -> Seq<char> {
    "; relaunch with "@ + SAFE_RENDERING@ + " to force the safest profile"@
}

fn with_way_out(text: String) -> (result: String)
    ensures
        result@ == text@ + way_out(),
{
    let result = text.concat("; relaunch with ").concat(SAFE_RENDERING).concat(
        " to force the safest profile",
    );
    assert(result@ =~= text@ + way_out());
    result
}

impl Remark<Seq<char>, Seq<char>> {
    /// The remark in words.
    pub open spec fn text(self) -> Seq<char> {
        match self {
            Remark::Forcing { package } => SAFE_RENDERING@ + " — forcing "@ + package.profile(
                package.terminal(),
            ) + " for this launch only"@,
            Remark::UnknownProfile(profile) => "recovery tag names an unknown profile ("@ + profile
                + "); not tracking this launch"@,
            Remark::Found { record, decision } => "found "@ + phase_text(record.phase)
                + " record (token="@ + record.token + " gen="@ + numeral(record.generation as nat)
                + " tier="@ + numeral(record.tier as nat) + " profile="@ + record.profile + ") → "@
                + decision_text(decision),
            Remark::AlreadyExhausted { package, tier } => "the ladder was already exhausted at tier "@
                + numeral(tier as nat) + " on "@ + package.label_text() + way_out(),
            Remark::Staying(refusal) => "staying at the launched profile — "@ + refusal.text(),
            Remark::Refused(refusal) => "relaunch refused: "@ + refusal.text(),
            Remark::Stranded(refusal) => "relaunch refused after releasing the single-instance name ("@
                + refusal.text() + "); exiting rather than running without it"@,
            Remark::WriteFailed { phase, error } => "failed to persist "@ + phase_text(phase) + ": "@
                + error,
            Remark::StartedFailed(error) => "failed to persist started: "@ + error,
            Remark::RollbackUnlocked =>
                "could not roll back the prepared record — the state lock was busy"@,
            Remark::RollbackStale => "not rolling back — another episode is current now"@,
            Remark::NotOwner(reason) => "recovery child is not the episode owner — "@ + reason
                + "; exiting"@,
            Remark::NotTracked(reason) => "not tracking this recovery launch — "@ + reason,
            Remark::ClaimFailed(error) => "claim failed: "@ + error,
            Remark::ReceiptUnlocked(phase) => "skipping the "@ + phase_text(phase)
                + " receipt — the state lock was unavailable"@,
            Remark::ReceiptStale(phase) => "skipping the "@ + phase_text(phase)
                + " receipt — this episode is no longer current"@,
            Remark::ReceiptAnonymous(phase) => "writing "@ + phase_text(phase)
                + " without an owner identity"@,
            Remark::Exhausted { package, tier, profile } => "ladder exhausted on "@
                + package.label_text() + " at tier "@ + numeral(tier as nat) + " ("@ + profile
                + ")"@ + way_out(),
            Remark::ExhaustUnlocked =>
                "could not record the exhausted ladder — the state lock was busy"@,
            Remark::NotEligible { termination, elapsed, tier, profile } => "web process ended ("@ + (
            match termination {
                Termination::Crashed => "Crashed"@,
                Termination::Other => "Other"@,
            }) + ") "@ + elapsed + " after launch at tier "@ + numeral(tier as nat) + " ("@
                + profile + ") — not ladder-eligible"@,
            Remark::AlreadyHandled =>
                "a ladder-eligible crash was already handled; not advancing again"@,
            Remark::ForcedProfile => "not advancing — this launch is running a forced profile"@,
        }
    }
}

impl Remark<String, &'static str> {
    /// The remark in words.
    pub fn message(&self) -> (message: String)
        ensures
            message@ == self@.text(),
    {
        match self {
            Remark::Forcing { package } => labelled(SAFE_RENDERING, " — forcing ").concat(
                profile_name(*package, package.terminal_tier()),
            ).concat(" for this launch only"),
            Remark::UnknownProfile(profile) => labelled(
                "recovery tag names an unknown profile (",
                profile.as_str(),
            ).concat("); not tracking this launch"),
            Remark::Found { record, decision } => labelled(
                "found ",
                phase_name(record.phase),
            ).concat(" record (token=").concat(record.token.as_str()).concat(" gen=").concat(
                decimal(record.generation as usize).as_str(),
            ).concat(" tier=").concat(decimal(record.tier).as_str()).concat(" profile=").concat(
                record.profile.as_str(),
            ).concat(") → ").concat(decision_words(decision).as_str()),
            Remark::AlreadyExhausted { package, tier } => with_way_out(
                labelled(
                    "the ladder was already exhausted at tier ",
                    decimal(*tier).as_str(),
                ).concat(" on ").concat(package.label()),
            ),
            Remark::Staying(refusal) => labelled(
                "staying at the launched profile — ",
                refusal.message().as_str(),
            ),
            Remark::Refused(refusal) => labelled(
                "relaunch refused: ",
                refusal.message().as_str(),
            ),
            Remark::Stranded(refusal) => labelled(
                "relaunch refused after releasing the single-instance name (",
                refusal.message().as_str(),
            ).concat("); exiting rather than running without it"),
            Remark::WriteFailed { phase, error } => labelled(
                "failed to persist ",
                phase_name(*phase),
            ).concat(": ").concat(error.as_str()),
            Remark::StartedFailed(error) => labelled("failed to persist started: ", error.as_str()),
            Remark::RollbackUnlocked =>
                "could not roll back the prepared record — the state lock was busy".to_owned(),
            Remark::RollbackStale => "not rolling back — another episode is current now".to_owned(),
            Remark::NotOwner(reason) => labelled(
                "recovery child is not the episode owner — ",
                reason.as_str(),
            ).concat("; exiting"),
            Remark::NotTracked(reason) => labelled(
                "not tracking this recovery launch — ",
                reason.as_str(),
            ),
            Remark::ClaimFailed(error) => labelled("claim failed: ", error.as_str()),
            Remark::ReceiptUnlocked(phase) => labelled("skipping the ", phase_name(*phase)).concat(
                " receipt — the state lock was unavailable",
            ),
            Remark::ReceiptStale(phase) => labelled("skipping the ", phase_name(*phase)).concat(
                " receipt — this episode is no longer current",
            ),
            Remark::ReceiptAnonymous(phase) => labelled("writing ", phase_name(*phase)).concat(
                " without an owner identity",
            ),
            Remark::Exhausted { package, tier, profile } => with_way_out(
                labelled("ladder exhausted on ", package.label()).concat(" at tier ").concat(
                    decimal(*tier).as_str(),
                ).concat(" (").concat(profile.as_str()).concat(")"),
            ),
            Remark::ExhaustUnlocked =>
                "could not record the exhausted ladder — the state lock was busy".to_owned(),
            Remark::NotEligible { termination, elapsed, tier, profile } => {
                let kind = match termination {
                    Termination::Crashed => "Crashed",
                    Termination::Other => "Other",
                };
                labelled("web process ended (", kind).concat(") ").concat(elapsed.as_str()).concat(
                    " after launch at tier ",
                ).concat(decimal(*tier).as_str()).concat(" (").concat(profile.as_str()).concat(
                    ") — not ladder-eligible",
                )
            },
            Remark::AlreadyHandled =>
                "a ladder-eligible crash was already handled; not advancing again".to_owned(),
            Remark::ForcedProfile =>
                "not advancing — this launch is running a forced profile".to_owned(),
        }
    }
}

// ── Laws of what is told ────────────────────────────────────────────────────

/// Whether a remark is that no child came of a handoff.
pub open spec fn tells_refusal(remark: RemarkModel) -> bool {
    remark is Staying || remark is Refused || remark is Stranded
}

/// A handoff that is refused says so once, at its end and last of all, with the
/// reason and by what the refusal means for the app. A handoff that goes on or
/// succeeds says nothing of the kind.
pub proof fn a_refused_handoff_is_told_at_its_end(
    task: HandOff<Seq<char>>,
    reply: Reply<Seq<char>>,
)
    ensures
        ({
            let told = task.tells(reply);
            match task.next(reply) {
                Turn::Done(Handoff::RefusedBeforeRelease(refusal)) => {
                    &&& told.len() > 0 && told.last() == (match task.attempt.release {
                        Release::NothingHeld => RemarkModel::Staying(refusal),
                        Release::SingleInstanceName => RemarkModel::Refused(refusal),
                    })
                    &&& forall|i: int|
                        0 <= i < told.len() - 1 ==> !tells_refusal(#[trigger] told[i])
                },
                Turn::Done(Handoff::RefusedAfterRelease(refusal)) => {
                    &&& task.attempt.release is SingleInstanceName ==> told.len() > 0
                        && told.last() == RemarkModel::Stranded(refusal)
                },
                _ => forall|i: int| 0 <= i < told.len() ==> !tells_refusal(#[trigger] told[i]),
            }
        }),
{
}

/// A write that fails is told with its phase and its error, whoever asked for it.
/// The one exception is the first write of a handoff, which is refused for it.
pub proof fn failed_writes_are_told(
    task: Task<Seq<char>>,
    record: Record<Seq<char>>,
    error: Seq<char>,
)
    requires
        task.asks() == Request::Write(record),
        hand_off_in(task) matches Some(task) ==> task.stage is Restore,
    ensures
        ({
            let told = task.tells(Reply::Written(Err(error)));
            &&& told.len() > 0
            &&& told[0] == (if task matches Task::Boot(Booting::Claim(_, _)) {
                RemarkModel::StartedFailed(error)
            } else {
                RemarkModel::WriteFailed { phase: record.phase, error }
            })
        }),
{
}

/// A lock that is not to be had is told, but for a reset, which fails for it, and a
/// record of another version, which can wait.
pub proof fn failed_locks_are_told(task: Task<Seq<char>>, error: Seq<char>)
    requires
        task.asks() is Lock,
        !(task matches Task::Boot(Booting::ResetLock)),
        !(task matches Task::Boot(Booting::DiscardLock(_))),
    ensures
        task.tells(Reply::Locked(Err(error))).len() > 0,
{
}

/// Whether the first thing told is the record that was found, and a decision that
/// leads to `next`.
pub open spec fn tells_the_decision(
    told: Seq<RemarkModel>,
    session: Session<Seq<char>>,
    record: Record<Seq<char>>,
    next: BootModel,
) -> bool {
    &&& told.len() > 0
    &&& told[0] matches Remark::Found { record: found, decision }
    &&& found == record && session.acts_on(record, decision) == next
    &&& decision is StopExhausted ==> told.len() == 2 && told[1] == (
    RemarkModel::AlreadyExhausted { package: session.package, tier: record.tier })
}

/// Every decision about a record is told when it is made, with the record.
pub proof fn decisions_are_told(
    session: Session<Seq<char>>,
    record: Record<Seq<char>>,
    observation: Observation<Seq<char>>,
    bus_id: Option<Seq<char>>,
    pid: u32,
    alive: bool,
)
    ensures
        ({
            let asked = Booting::BusId(session, record, observation);
            let next = asked.next(Reply::Bus(bus_id));
            !(next matches Turn::Ask(Booting::Probe(_, _, _, _, _))) ==> tells_the_decision(
                asked.tells(Reply::Bus(bus_id)),
                session,
                record,
                next,
            )
        }),
        ({
            let asked = Booting::Probe(session, record, observation, bus_id, pid);
            tells_the_decision(
                asked.tells(Reply::Alive(alive)),
                session,
                record,
                asked.next(Reply::Alive(alive)),
            )
        }),
{
}

/// A child says why it is not the owner of its episode, and an owner says nothing.
pub proof fn children_say_what_became_of_them(
    task: Claiming<Seq<char>>,
    reply: Reply<Seq<char>>,
)
    ensures
        task.next(reply) matches Turn::Done(claimed) ==> task.tells(reply) == (match claimed {
            Claimed::Owner { .. } => None,
            Claimed::Superseded(reason) => Some(RemarkModel::NotOwner(reason)),
            Claimed::Untracked(reason) => Some(RemarkModel::NotTracked(reason)),
        }),
        reply matches Reply::Claimed(Claim::Failed(error)) && task.stage is Claim ==> task.tells(
            reply,
        ) == Some(RemarkModel::ClaimFailed(reply->Claimed_0->Failed_0)),
{
}

/// A receipt that is dropped says so, and one that is written without the identity
/// of a connection says that.
pub proof fn dropped_receipts_are_told(task: Noting<Seq<char>>, reply: Reply<Seq<char>>)
    ensures
        task.stage is Lock && (reply matches Reply::Locked(Err(_))) ==> task.tells(reply) == Some(
            RemarkModel::ReceiptUnlocked(task.receipt.phase),
        ),
        task.stage is Read && reply is Found ==> (task.tells(reply) == Some(
            RemarkModel::ReceiptStale(task.receipt.phase),
        ) <==> (task.next(reply) matches Turn::Ask(next) && next.asks() is Unlock)),
        task.stage is Observe && reply is Observed ==> (task.tells(reply) == Some(
            RemarkModel::ReceiptAnonymous(task.receipt.phase),
        ) <==> (task.next(reply) matches Turn::Ask(next) && next.asks() is Write)),
{
}

/// The end of the ladder is told with where it ended, whether or not it could be
/// written down.
pub proof fn the_end_of_the_ladder_is_told(
    task: Exhausting<Seq<char>>,
    result: Result<(), Seq<char>>,
)
    requires
        task.stage is Write,
    ensures
        ({
            let told = task.tells(Reply::Written(result));
            &&& told.len() == (if result is Ok {
                1nat
            } else {
                2nat
            })
            &&& told.last() == (RemarkModel::Exhausted {
                package: task.package,
                tier: task.record.tier,
                profile: task.record.profile,
            })
        }),
{
}

/// A termination is explained exactly if it is not acted on: because it was none
/// that counts, because one was acted on before, or because the launch is frozen.
pub proof fn ignored_terminations_are_explained(
    session: Session<Seq<char>>,
    termination: Termination,
    since_launch: u128,
    elapsed: Seq<char>,
)
    ensures
        ({
            let told = session.tells_of_termination(termination, since_launch, elapsed);
            let early = termination is Crashed && since_launch <= 5_000_000_000;
            &&& told is Some <==> session.answers(termination, since_launch) is Done
            &&& told matches Some(remark) ==> {
                &&& !early ==> remark == (RemarkModel::NotEligible {
                    termination,
                    elapsed,
                    tier: session.tier,
                    profile: session.profile(),
                })
                &&& early && session.crashed ==> remark is AlreadyHandled
                &&& early && !session.crashed ==> remark is ForcedProfile
            }
        }),
{
}

/// A launch says at its beginning that it forces the safest profile, exactly if
/// nothing the user or its parent set stands against the flag; and a child says
/// that it does not know its profile, exactly if no rung of its package bears that
/// name.
pub proof fn a_launch_says_how_it_begins(flags: Flags, env: Map<Seq<char>, Seq<char>>)
    requires
        !flags.reset_rendering_mode,
    ensures
        ({
            let told = tells_of_boot(Ok(()), flags, env);
            let package = package_in(env);
            match tag_in(env) {
                Some(tag) => {
                    &&& told is Some ==> told == Some(RemarkModel::UnknownProfile(tag.profile))
                    &&& told is Some <==> forall|tier: usize|
                        tier <= last_rung(package) ==> tag.profile != #[trigger] tier_name(
                            tier as int,
                        )
                },
                None => {
                    &&& told is Some ==> told == Some(RemarkModel::Forcing { package })
                    &&& told is Some <==> flags.safe_rendering && !configured(env)
                },
            }
        }),
{
    let package = package_in(env);
    lemma_configured(Seq::empty(), Seq::empty(), env, 0);
    if let Some(tag) = tag_in(env) {
        if let Some(tier) = package.named(tag.profile) {
            a_name_stands_for_its_rung(package, tag.profile, tier);
            assert(tag.profile == tier_name(tier as int));
        }
        assert forall|tier: usize|
            tier <= last_rung(package) && package.named(tag.profile) is None implies tag.profile
            != #[trigger] tier_name(tier as int) by {
            a_name_stands_for_its_rung(package, tag.profile, tier);
        }
    }
}

/// What there is to know about a record and its decision is in the words.
pub proof fn a_found_record_is_told_in_full(
    record: Record<Seq<char>>,
    decision: Decision<Seq<char>>,
)
    ensures
        ({
            let text = (RemarkModel::Found { record, decision }).text();
            &&& says(text, phase_text(record.phase)) && says(text, record.token)
            &&& says(text, numeral(record.generation as nat))
            &&& says(text, numeral(record.tier as nat))
            &&& says(text, record.profile) && says(text, decision_text(decision))
        }),
{
    let text = (RemarkModel::Found { record, decision }).text();
    let phase = phase_text(record.phase);
    let generation = numeral(record.generation as nat);
    let tier = numeral(record.tier as nat);
    let nothing = Seq::<char>::empty();
    let end = ") → "@ + decision_text(decision);
    let profile = " profile="@ + record.profile + end;
    let rest = " tier="@ + tier + profile;
    let back = " gen="@ + generation + rest;
    let all = " record (token="@ + record.token + back;
    assert(text =~= "found "@ + phase + all);
    lemma_says("found "@, phase, all);
    let front = "found "@ + phase + " record (token="@;
    assert(text =~= front + record.token + back);
    lemma_says(front, record.token, back);
    let front = front + record.token + " gen="@;
    assert(text =~= front + generation + rest);
    lemma_says(front, generation, rest);
    let front = front + generation + " tier="@;
    assert(text =~= front + tier + profile);
    lemma_says(front, tier, profile);
    let front = front + tier + " profile="@;
    assert(text =~= front + record.profile + end);
    lemma_says(front, record.profile, end);
    let front = front + record.profile + ") → "@;
    assert(text =~= front + decision_text(decision) + nothing);
    lemma_says(front, decision_text(decision), nothing);
}

/// Every remark about a refusal, a fault or a reason gives it in full.
pub proof fn reasons_are_told_in_full(refusal: Refusal<Seq<char>>, phase: Phase, detail: Seq<char>)
    ensures
        says(RemarkModel::Staying(refusal).text(), refusal.text()),
        says(RemarkModel::Refused(refusal).text(), refusal.text()),
        says(RemarkModel::Stranded(refusal).text(), refusal.text()),
        says((RemarkModel::WriteFailed { phase, error: detail }).text(), detail),
        says((RemarkModel::WriteFailed { phase, error: detail }).text(), phase_text(phase)),
        says(RemarkModel::StartedFailed(detail).text(), detail),
        says(RemarkModel::NotOwner(detail).text(), detail),
        says(RemarkModel::NotTracked(detail).text(), detail),
        says(RemarkModel::ClaimFailed(detail).text(), detail),
        says(RemarkModel::UnknownProfile(detail).text(), detail),
        says(RemarkModel::ReceiptUnlocked(phase).text(), phase_text(phase)),
        says(RemarkModel::ReceiptStale(phase).text(), phase_text(phase)),
        says(RemarkModel::ReceiptAnonymous(phase).text(), phase_text(phase)),
{
    let nothing = Seq::<char>::empty();
    let why = refusal.text();
    let name = phase_text(phase);
    let staying = "staying at the launched profile — "@;
    assert(RemarkModel::Staying(refusal).text() =~= staying + why + nothing);
    assert(RemarkModel::Refused(refusal).text() =~= "relaunch refused: "@ + why + nothing);
    let stranded = "relaunch refused after releasing the single-instance name ("@;
    let exiting = "); exiting rather than running without it"@;
    assert(RemarkModel::Stranded(refusal).text() =~= stranded + why + exiting);
    let failed = (RemarkModel::WriteFailed { phase, error: detail }).text();
    assert(failed =~= ("failed to persist "@ + name + ": "@) + detail + nothing);
    assert(failed =~= "failed to persist "@ + name + (": "@ + detail));
    let started = "failed to persist started: "@;
    assert(RemarkModel::StartedFailed(detail).text() =~= started + detail + nothing);
    let owner = "recovery child is not the episode owner — "@;
    assert(RemarkModel::NotOwner(detail).text() =~= owner + detail + "; exiting"@);
    let tracking = "not tracking this recovery launch — "@;
    assert(RemarkModel::NotTracked(detail).text() =~= tracking + detail + nothing);
    assert(RemarkModel::ClaimFailed(detail).text() =~= "claim failed: "@ + detail + nothing);
    let unknown = "recovery tag names an unknown profile ("@;
    assert(RemarkModel::UnknownProfile(detail).text() =~= unknown + detail
        + "); not tracking this launch"@);
    assert(RemarkModel::ReceiptUnlocked(phase).text() =~= "skipping the "@ + name
        + " receipt — the state lock was unavailable"@);
    assert(RemarkModel::ReceiptStale(phase).text() =~= "skipping the "@ + name
        + " receipt — this episode is no longer current"@);
    assert(RemarkModel::ReceiptAnonymous(phase).text() =~= "writing "@ + name
        + " without an owner identity"@);
}

/// A rollback says that it could not be tried, or that there is nothing left to
/// undo because the record is another's; and otherwise nothing.
pub proof fn rollbacks_say_what_they_left(task: HandOff<Seq<char>>, reply: Reply<Seq<char>>)
    ensures
        ({
            let told = task.tells_of_rollback(reply);
            &&& task.stage is Relock && (reply matches Reply::Locked(Err(_))) ==> told == Some(
                RemarkModel::RollbackUnlocked,
            )
            &&& task.stage is Reread && reply is Found ==> (told == Some(
                RemarkModel::RollbackStale,
            ) <==> (task.next(reply) matches Turn::Ask(next) && next.asks() is Unlock))
            &&& told is Some ==> task.stage is Relock || task.stage is Reread || task.stage
                is Restore
            &&& told matches Some(remark) ==> task.tells(reply).len() > 0 && task.tells(reply)[0]
                == remark
        }),
{
}

/// A launch that stays because its package has no such tier says so last of all.
pub proof fn a_missing_tier_is_told(
    session: Session<Seq<char>>,
    record: Record<Seq<char>>,
    tier: usize,
    reason: Seq<char>,
    episode: Episode<Seq<char>>,
)
    requires
        tier > last_rung(session.package),
    ensures
        ({
            let refusal = missing_tier(session.package, tier);
            let retry = session.tells_of(record, Decision::RetrySameTier { reason, tier });
            let fresh = Booting::Mint(Session { tier, ..session }).tells(Reply::Minted(episode));
            &&& retry.last() == RemarkModel::Staying(refusal) && retry.len() == 2
            &&& fresh == seq![RemarkModel::Staying(refusal)]
            &&& refusal matches Refusal::NoTier(detail) && says(detail, numeral(tier as nat))
                && says(detail, session.package.label_text())
        }),
{
    let refusal = missing_tier(session.package, tier);
    let label = session.package.label_text();
    let nothing = Seq::<char>::empty();
    let number = numeral(tier as nat);
    let detail = label + " has no tier "@ + number;
    assert(detail =~= (label + " has no tier "@) + number + nothing);
    lemma_says(label + " has no tier "@, number, nothing);
    assert(detail =~= nothing + label + (" has no tier "@ + number));
    lemma_says(nothing, label, " has no tier "@ + number);
}

/// A decision tells its tier and its reason.
pub proof fn decisions_tell_tier_and_reason(reason: Seq<char>, tier: usize)
    ensures
        says(decision_text(Decision::Defer(reason)), reason),
        says(decision_text(Decision::RetrySameTier { reason, tier }), reason),
        says(decision_text(Decision::RetrySameTier { reason, tier }), numeral(tier as nat)),
        says(decision_text(Decision::AdvanceOrStop { reason, tier }), reason),
        says(decision_text(Decision::AdvanceOrStop { reason, tier }), numeral(tier as nat)),
        says(decision_text(Decision::ReuseProfile { tier }), numeral(tier as nat)),
        says(decision_text(Decision::StopExhausted { tier }), numeral(tier as nat)),
        says(decision_text(Decision::DiscardAndBaseline { reason }), reason),
{
    let number = numeral(tier as nat);
    let mark = "\""@;
    let rest = mark + ", tier: "@ + number + " }"@;
    assert(decision_text(Decision::Defer(reason)) =~= ("Defer("@ + mark) + reason + (mark + ")"@));
    let retry = decision_text(Decision::RetrySameTier { reason, tier });
    let start = "RetrySameTier { reason: "@ + mark;
    assert(retry =~= start + reason + rest);
    assert(retry =~= (start + reason + mark + ", tier: "@) + number + " }"@);
    let advance = decision_text(Decision::AdvanceOrStop { reason, tier });
    let start = "AdvanceOrStop { reason: "@ + mark;
    assert(advance =~= start + reason + rest);
    assert(advance =~= (start + reason + mark + ", tier: "@) + number + " }"@);
    assert(decision_text(Decision::ReuseProfile { tier }) =~= "ReuseProfile { tier: "@ + number
        + " }"@);
    assert(decision_text(Decision::StopExhausted { tier }) =~= "StopExhausted { tier: "@ + number
        + " }"@);
    assert(decision_text(Decision::DiscardAndBaseline { reason }) =~= (
    "DiscardAndBaseline { reason: "@ + mark) + reason + (mark + " }"@));
}

/// The end of the ladder is told with the package, the tier, the profile and the
/// way to the safest one by hand. A termination that is not acted on is told with
/// its time, tier and profile, and a forced launch with the profile it forces.
pub proof fn places_on_the_ladder_are_told(
    package: Package,
    tier: usize,
    profile: Seq<char>,
    termination: Termination,
    elapsed: Seq<char>,
)
    ensures
        ({
            let spent = (RemarkModel::Exhausted { package, tier, profile }).text();
            let before = (RemarkModel::AlreadyExhausted { package, tier }).text();
            let late =
                (RemarkModel::NotEligible { termination, elapsed, tier, profile }).text();
            let forced = (RemarkModel::Forcing { package }).text();
            &&& says(spent, package.label_text()) && says(spent, numeral(tier as nat))
            &&& says(spent, profile) && says(spent, "--safe-rendering"@)
            &&& says(before, package.label_text()) && says(before, numeral(tier as nat))
            &&& says(before, "--safe-rendering"@)
            &&& says(late, elapsed) && says(late, numeral(tier as nat)) && says(late, profile)
            &&& says(forced, tier_name(last_rung(package) as int))
        }),
{
    let number = numeral(tier as nat);
    let label = package.label_text();
    let flag = "--safe-rendering"@;
    let out = " to force the safest profile"@;
    let way = "; relaunch with "@ + flag + out;
    let nothing = Seq::<char>::empty();
    let spent = (RemarkModel::Exhausted { package, tier, profile }).text();
    let start = "ladder exhausted on "@;
    assert(spent =~= start + label + (" at tier "@ + number + " ("@ + profile + ")"@ + way));
    let start = start + label + " at tier "@;
    assert(spent =~= start + number + (" ("@ + profile + ")"@ + way));
    let start = start + number + " ("@;
    assert(spent =~= start + profile + (")"@ + way));
    assert(spent =~= (start + profile + ")"@ + "; relaunch with "@) + flag + out);
    let before = (RemarkModel::AlreadyExhausted { package, tier }).text();
    let start = "the ladder was already exhausted at tier "@;
    assert(before =~= start + number + (" on "@ + label + way));
    assert(before =~= (start + number + " on "@) + label + way);
    assert(before =~= (start + number + " on "@ + label + "; relaunch with "@) + flag + out);
    let late = (RemarkModel::NotEligible { termination, elapsed, tier, profile }).text();
    let kind = match termination {
        Termination::Crashed => "Crashed"@,
        Termination::Other => "Other"@,
    };
    let start = "web process ended ("@ + kind + ") "@;
    let end = ") — not ladder-eligible"@;
    assert(late =~= start + elapsed + (" after launch at tier "@ + number + " ("@ + profile
        + end));
    let start = start + elapsed + " after launch at tier "@;
    assert(late =~= start + number + (" ("@ + profile + end));
    assert(late =~= (start + number + " ("@) + profile + end);
    let forced = (RemarkModel::Forcing { package }).text();
    let name = tier_name(last_rung(package) as int);
    assert(forced =~= (flag + " — forcing "@) + name + " for this launch only"@);
}

} // verus!
