//! Boot reconciliation and the live ladder state for the running process.
//!
//! `reconcile` runs before the app is built, while the process is still single
//! threaded and owns no D-Bus name. What it comes to is either a `Session`, which
//! the rest of the process uses to react to a crash, or an instruction to exit.

use super::claim::{claim, Claimed, Claiming, ClaimStage};
use super::classify::{decide, decision, doubtful_pid, pid_to_probe, Decision};
use super::cli::{flags_in, parse, readable, Flags, SAFE_RENDERING};
use super::dbus::{instance_name, single_instance_name, Observation};
use super::episode::{
    advance, advances_ladder, eligible, next_rung, profile_name, retried, retry_of, Advance,
    Episode, Termination, CRASH_ELIGIBILITY_WINDOW,
};
use super::hand_off::{hand_off, handed, Attempt, HandOff, Release};
use super::launcher::{tag_in, Handoff, Tag};
use super::profiles::{owned_present, package_in, present_in, Env, Package};
use super::protocol::{settled, Reply, Request, Turn};
use super::receipt::{ExhaustStage, Exhausting, NoteStage, Noting};
use super::state::{plain_record, Phase, Record};
use crate::text::{join, joined, labelled, opt, texts};
use vstd::prelude::*;

verus! {

// ── Why recovery is off ─────────────────────────────────────────────────────

/// Why the ladder is not running this launch. In every case the app starts
/// normally with whatever environment it already has.
#[derive(Debug, PartialEq, Eq)]
pub enum Disabled<S = String, L = Vec<String>> {
    /// The user assigned an owned variable. Their configuration wins whole: no
    /// tier selection, no relaunch, no ladder.
    UserEnv(L),
    /// No app data dir, so no durable record is possible.
    NoStateDir(S),
}

impl View for Disabled<String, Vec<String>> {
    type V = Disabled<Seq<char>, Seq<Seq<char>>>;

    open spec fn view(&self) -> Disabled<Seq<char>, Seq<Seq<char>>> {
        match self {
            Disabled::UserEnv(vars) => Disabled::UserEnv(texts(vars@)),
            Disabled::NoStateDir(error) => Disabled::NoStateDir(error@),
        }
    }
}

impl Disabled<Seq<char>, Seq<Seq<char>>> {
    /// The reason in words.
    pub open spec fn text(self) -> Seq<char> {
        match self {
            Disabled::UserEnv(vars) => joined(vars, ", "@)
                + " set in the environment; renderer recovery leaves user configuration alone"@,
            Disabled::NoStateDir(error) => error,
        }
    }
}

impl Disabled<String, Vec<String>> {
    /// The reason in words.
    pub fn message(&self) -> (message: String)
        ensures
            message@ == self@.text(),
    {
        match self {
            Disabled::UserEnv(vars) => join(vars, ", ").concat(
                " set in the environment; renderer recovery leaves user configuration alone",
            ),
            Disabled::NoStateDir(error) => error.clone(),
        }
    }
}

/// The part of an assignment before its first `=`; all of it if there is none.
pub open spec fn key_part(assignment: Seq<char>) -> Seq<char>
    decreases assignment.len(),
{
    if assignment.len() == 0 || assignment[0] == '=' {
        Seq::empty()
    } else {
        seq![assignment[0]] + key_part(assignment.skip(1))
    }
}

fn key_of(assignment: &str) -> (key: String)
    ensures
        key@ == key_part(assignment@),
{
    let len: usize = assignment.unicode_len();
    let mut key = String::new();
    let mut i: usize = 0;
    assert(assignment@.skip(0) =~= assignment@);
    while i < len
        invariant
            i <= len,
            len == assignment@.len(),
            key_part(assignment@) == key@ + key_part(assignment@.skip(i as int)),
        decreases len - i,
    {
        let c: char = assignment.get_char(i);
        let ghost rest = assignment@.skip(i as int);
        assert(rest[0] == c);
        assert(rest.skip(1) =~= assignment@.skip(i + 1));
        if c == '=' {
            assert(key@ =~= key_part(assignment@));
            return key;
        }
        let ghost before = key@;
        key.push(c);
        assert(before + (seq![c] + key_part(rest.skip(1))) =~= key@ + key_part(rest.skip(1)));
        i = i + 1;
    }
    assert(key@ =~= key_part(assignment@));
    key
}

/// The diagnostic for `--safe-rendering` against user-set owned variables.
pub open spec fn conflict(present: Seq<Seq<char>>) -> Seq<char> {
    SAFE_RENDERING@ + " cannot be applied: "@ + joined(present, ", "@)
        + " already set in the environment. Either unset "@ + joined(
        present.map_values(|assignment: Seq<char>| key_part(assignment)),
        ", "@,
    ) + " and run "@ + SAFE_RENDERING@
        + " again, or keep that environment and drop the flag."@
}

/// The diagnostic for `--safe-rendering` against user-set owned variables.
///
/// `present` carries `KEY=value` assignments, so it both shows the user what is
/// set and names the keys to unset: the two things needed to act on this.
pub fn conflict_message(present: &Vec<String>) -> (message: String)
    ensures
        message@ == conflict(texts(present@)),
{
    let mut keys: Vec<String> = Vec::new();
    let mut i: usize = 0;
    while i < present.len()
        invariant
            i <= present.len(),
            keys@.len() == i,
            forall|k: int| 0 <= k < i ==> (#[trigger] keys@[k])@ == key_part(present@[k]@),
        decreases present.len() - i,
    {
        keys.push(key_of(present[i].as_str()));
        i = i + 1;
    }
    assert(texts(keys@) =~= texts(present@).map_values(
        |assignment: Seq<char>| key_part(assignment),
    ));
    SAFE_RENDERING.to_owned().concat(" cannot be applied: ").concat(
        join(present, ", ").as_str(),
    ).concat(" already set in the environment. Either unset ").concat(
        join(&keys, ", ").as_str(),
    ).concat(" and run ").concat(SAFE_RENDERING).concat(
        " again, or keep that environment and drop the flag.",
    )
}

// ── Session ─────────────────────────────────────────────────────────────────

/// Everything the running process needs to react to a web-process crash.
#[derive(Debug, PartialEq, Eq)]
pub struct Session<S = String> {
    pub package: Package,
    pub version: S,
    pub dbus_name: S,
    /// This process.
    pub pid: u32,
    /// The tier this process is actually running.
    pub tier: usize,
    /// Episode identity, present only when this process claimed a prepared
    /// record. A plain launch owns no episode.
    pub episode: Option<Episode<S>>,
    /// Manual override: never advance, never persist. Set by `--safe-rendering`
    /// and by any child that could not claim the episode it was sent to run.
    pub frozen: bool,
    /// Set once a ladder-eligible crash is seen, so a process that observed one
    /// and failed to hand off never goes on to record a crash-free startup, and
    /// so the handoff itself happens at most once per process.
    pub crashed: bool,
}

impl View for Session<String> {
    type V = Session<Seq<char>>;

    open spec fn view(&self) -> Session<Seq<char>> {
        Session {
            package: self.package,
            version: self.version@,
            dbus_name: self.dbus_name@,
            pid: self.pid,
            tier: self.tier,
            episode: opt(self.episode),
            frozen: self.frozen,
            crashed: self.crashed,
        }
    }
}

impl Clone for Session<String> {
    fn clone(&self) -> (copy: Self)
        ensures
            copy == *self,
    {
        Session {
            package: self.package,
            version: self.version.clone(),
            dbus_name: self.dbus_name.clone(),
            pid: self.pid,
            tier: self.tier,
            episode: match &self.episode {
                Some(episode) => Some(episode.clone()),
                None => None,
            },
            frozen: self.frozen,
            crashed: self.crashed,
        }
    }
}

/// What a boot came to.
#[derive(Debug, PartialEq, Eq)]
pub enum Boot<S = String, L = Vec<String>> {
    /// Continue in this process. The environment already matches the session's
    /// tier, and the session carries what is needed to react to a later crash.
    Run(Session<S>),
    /// A child was spawned to run the selected tier; this process must exit
    /// without starting the app. The child is Buzz now.
    HandedOff,
    /// `--reset-rendering-mode` did its work. Say what was cleared and exit
    /// without launching.
    Reset { cleared: bool },
    /// Recovery is off this launch, but the app still starts.
    Off(Disabled<S, L>),
    /// Another process owns this episode. Exit without starting the app and
    /// without competing for the single-instance name.
    Superseded,
    /// The user asked for something that cannot be delivered. Exit with a
    /// diagnostic and a non-zero status rather than starting an app that
    /// silently ignores the request.
    Fatal(S),
}

impl View for Boot<String, Vec<String>> {
    type V = Boot<Seq<char>, Seq<Seq<char>>>;

    open spec fn view(&self) -> Boot<Seq<char>, Seq<Seq<char>>> {
        match self {
            Boot::Run(session) => Boot::Run(session@),
            Boot::HandedOff => Boot::HandedOff,
            Boot::Reset { cleared } => Boot::Reset { cleared: *cleared },
            Boot::Off(reason) => Boot::Off(reason@),
            Boot::Superseded => Boot::Superseded,
            Boot::Fatal(diagnostic) => Boot::Fatal(diagnostic@),
        }
    }
}

/// What `--reset-rendering-mode` tells the user.
pub fn reset_report(cleared: bool) -> (report: &'static str)
    ensures
        report@ == (if cleared {
            "Cleared the persisted renderer profile and episode state."@
        } else {
            "No persisted renderer profile or episode state to clear."@
        }),
{
    if cleared {
        "Cleared the persisted renderer profile and episode state."
    } else {
        "No persisted renderer profile or episode state to clear."
    }
}

/// Where a boot stands.
#[derive(Debug, PartialEq, Eq)]
pub enum Booting<S = String> {
    /// `--reset-rendering-mode`.
    ResetLock,
    ResetClear,
    ResetUnlock { cleared: bool },
    /// An untagged launch gathers what there is to know about the record.
    Read(Session<S>),
    Observe(Session<S>, Record<S>),
    BusId(Session<S>, Record<S>, Observation<S>),
    Probe(Session<S>, Record<S>, Observation<S>, Option<S>, u32),
    /// The record is unusable and goes away.
    DiscardLock(Session<S>),
    DiscardClear(Session<S>),
    DiscardUnlock(Session<S>),
    /// The session's tier needs a child, and the child a fresh episode.
    Mint(Session<S>),
    HandOff(Session<S>, HandOff<S>),
    /// The ladder is spent, and no episode was under way.
    ExhaustMint(Session<S>),
    Exhaust(Session<S>, Exhausting<S>),
    /// A tagged launch takes over its episode.
    Claim(Session<S>, Claiming<S>),
}

impl View for Booting<String> {
    type V = Booting<Seq<char>>;

    open spec fn view(&self) -> Booting<Seq<char>> {
        match self {
            Booting::ResetLock => Booting::ResetLock,
            Booting::ResetClear => Booting::ResetClear,
            Booting::ResetUnlock { cleared } => Booting::ResetUnlock { cleared: *cleared },
            Booting::Read(session) => Booting::Read(session@),
            Booting::Observe(session, record) => Booting::Observe(session@, record@),
            Booting::BusId(session, record, observation) => Booting::BusId(
                session@,
                record@,
                observation@,
            ),
            Booting::Probe(session, record, observation, bus_id, pid) => Booting::Probe(
                session@,
                record@,
                observation@,
                opt(*bus_id),
                *pid,
            ),
            Booting::DiscardLock(session) => Booting::DiscardLock(session@),
            Booting::DiscardClear(session) => Booting::DiscardClear(session@),
            Booting::DiscardUnlock(session) => Booting::DiscardUnlock(session@),
            Booting::Mint(session) => Booting::Mint(session@),
            Booting::HandOff(session, task) => Booting::HandOff(session@, task@),
            Booting::ExhaustMint(session) => Booting::ExhaustMint(session@),
            Booting::Exhaust(session, task) => Booting::Exhaust(session@, task@),
            Booting::Claim(session, task) => Booting::Claim(session@, task@),
        }
    }
}

/// A boot's next turn.
pub type BootTurn = Turn<Booting<String>, Boot<String, Vec<String>>>;

/// A boot's next turn, in the model.
pub type BootModel = Turn<Booting<Seq<char>>, Boot<Seq<char>, Seq<Seq<char>>>>;

impl Session<Seq<char>> {
    /// The name of the tier this process runs.
    pub open spec fn profile(self) -> Seq<char> {
        self.package.profile(self.tier as int)
    }

    /// A receipt of this process for `episode`.
    pub open spec fn receipt(self, phase: Phase, episode: Episode<Seq<char>>) -> Record<Seq<char>> {
        Record {
            pid: Some(self.pid),
            ..plain_record(
                phase,
                episode.token,
                episode.generation,
                self.profile(),
                self.tier,
                self.version,
            )
        }
    }

    /// An attempt at `tier` from this process.
    pub open spec fn attempt(self, tier: usize, release: Release) -> Attempt<Seq<char>> {
        Attempt {
            dbus_name: self.dbus_name,
            package: self.package,
            version: self.version,
            tier,
            release,
        }
    }

    /// Record that no profile survived.
    pub open spec fn exhausting(self, episode: Episode<Seq<char>>) -> Exhausting<Seq<char>> {
        Exhausting {
            package: self.package,
            record: self.receipt(Phase::Exhausted, episode),
            stage: ExhaustStage::Lock,
        }
    }

    // ── Boot ────────────────────────────────────────────────────────────────
    /// A boot after its handoff: the app belongs to the child, or stays here at
    /// the baseline it was launched as, which must not claim otherwise.
    pub open spec fn after_hand_off(self, handoff: Handoff<Seq<char>>) -> Boot<
        Seq<char>,
        Seq<Seq<char>>,
    > {
        match handoff {
            Handoff::Launched => Boot::HandedOff,
            Handoff::RefusedBeforeRelease(_) => Boot::Run(
                Session { tier: 0, frozen: true, ..self },
            ),
            Handoff::RefusedAfterRelease(refusal) => Boot::Fatal(
                "renderer handoff refused after an unexpected release: "@ + refusal.text(),
            ),
        }
    }

    /// Hand off to a child at `tier`, or run on here if the handoff is refused.
    pub open spec fn hands_off_or_runs(
        self,
        episode: Option<Episode<Seq<char>>>,
        tier: usize,
    ) -> BootModel {
        match handed(self.attempt(tier, Release::NothingHeld), episode) {
            Turn::Ask(task) => Turn::Ask(Booting::HandOff(self, task)),
            Turn::Done(handoff) => Turn::Done(self.after_hand_off(handoff)),
        }
    }

    /// Continue here when this process already carries the selected tier's
    /// environment, otherwise hand off to a child that carries it exactly.
    ///
    /// Tier 0 sets nothing, and no owned variable is present, so this process
    /// already *is* tier 0. A frozen launch is a manual override, so it runs the
    /// tier without owning an episode.
    pub open spec fn runs_selected_tier(self) -> BootModel {
        if self.tier == 0 {
            Turn::Done(Boot::Run(self))
        } else if self.frozen {
            self.hands_off_or_runs(None, self.tier)
        } else {
            Turn::Ask(Booting::Mint(self))
        }
    }

    /// Move one tier down for a failed attempt, or stop at the terminal tier.
    pub open spec fn steps_down(self, failed: usize) -> BootModel {
        match next_rung(self.package, failed) {
            Advance::Tier(next) => Turn::Ask(Booting::Mint(Session { tier: next, ..self })),
            Advance::Exhausted => {
                let stopped = Session { tier: failed, frozen: true, ..self };
                match self.episode {
                    Some(episode) => Turn::Ask(
                        Booting::Exhaust(stopped, stopped.exhausting(episode)),
                    ),
                    None => Turn::Ask(Booting::ExhaustMint(stopped)),
                }
            },
        }
    }

    /// An untagged launch with a record, once everything about it is known.
    pub open spec fn acts_on(
        self,
        record: Record<Seq<char>>,
        decision: Decision<Seq<char>>,
    ) -> BootModel {
        match decision {
            // Another instance owns the app. Run on as an ordinary duplicate and
            // let the single-instance plugin forward argv and exit us.
            Decision::Defer(_) => Turn::Done(Boot::Run(self)),
            Decision::DiscardAndBaseline { .. } => Turn::Ask(Booting::DiscardLock(self)),
            // The persisted "last crash-free startup profile" fact.
            Decision::ReuseProfile { tier } => Session { tier, ..self }.runs_selected_tier(),
            // No profile survived. Stop rather than relaunch: the user's way to
            // the safest tier is the flag, not another fork.
            Decision::StopExhausted { .. } => Turn::Done(
                Boot::Run(Session { frozen: true, ..self }),
            ),
            // An attempt that never produced a receipt: re-run the same tier
            // under the next generation.
            Decision::RetrySameTier { tier, .. } => Session { tier, ..self }.hands_off_or_runs(
                Some(retried(record)),
                tier,
            ),
            Decision::AdvanceOrStop { tier, .. } => self.steps_down(tier),
        }
    }

    /// An untagged launch with a record and the bus's word on the name: only a
    /// started attempt without an owner makes it matter whether its child lives.
    pub open spec fn weighs(
        self,
        record: Record<Seq<char>>,
        observation: Observation<Seq<char>>,
        bus_id: Option<Seq<char>>,
    ) -> BootModel {
        match doubtful_pid(record, observation, self.version) {
            Some(pid) => Turn::Ask(Booting::Probe(self, record, observation, bus_id, pid)),
            None => self.acts_on(
                record,
                decision(record, observation, bus_id, self.version, false),
            ),
        }
    }

    /// An untagged launch: `--safe-rendering` is a manual override for this
    /// launch only, with the terminal tier, no episode and nothing persisted.
    pub open spec fn selects_tier(self, safe_rendering: bool) -> BootModel {
        if safe_rendering {
            Session {
                tier: self.package.terminal() as usize,
                frozen: true,
                ..self
            }.runs_selected_tier()
        } else {
            Turn::Ask(Booting::Read(self))
        }
    }

    /// A tagged launch.
    ///
    /// An unknown profile cannot be trusted to describe the environment the
    /// parent actually applied, so such a launch is not tracked at all. A forced
    /// child owns no episode, so it has nothing to claim.
    pub open spec fn starts_as_child(self, tag: Tag<Seq<char>>) -> BootModel {
        match self.package.named(tag.profile) {
            None => Turn::Done(Boot::Run(Session { frozen: true, ..self })),
            Some(tier) => match tag.episode {
                None => Turn::Done(Boot::Run(Session { tier, frozen: true, ..self })),
                Some(episode) => Turn::Ask(
                    Booting::Claim(
                        Session { tier, ..self },
                        Claiming { episode, pid: self.pid, stage: ClaimStage::Lock },
                    ),
                ),
            },
        }
    }

    /// A tagged launch after its claim.
    ///
    /// A superseded child exits rather than running on: it could win the
    /// single-instance name ahead of the true owner. An untracked one has no
    /// owner to defer to, so exiting would cost the user their window for
    /// nothing.
    pub open spec fn after_claim(self, claimed: Claimed<Seq<char>>) -> Boot<
        Seq<char>,
        Seq<Seq<char>>,
    > {
        match claimed {
            Claimed::Owner { episode, tier } => Boot::Run(
                Session { tier, episode: Some(episode), ..self },
            ),
            Claimed::Superseded(_) => Boot::Superseded,
            Claimed::Untracked(_) => Boot::Run(Session { frozen: true, ..self }),
        }
    }
}

/// A launch before anything is known about it.
pub open spec fn launched(
    identifier: Seq<char>,
    version: Seq<char>,
    env: Map<Seq<char>, Seq<char>>,
    pid: u32,
) -> Session<Seq<char>> {
    Session {
        package: package_in(env),
        version,
        dbus_name: instance_name(identifier),
        pid,
        tier: 0,
        episode: None,
        frozen: false,
        crashed: false,
    }
}

/// How a launch begins.
///
/// Without a state directory recovery is off. Reset runs ahead of the opt-out
/// check on purpose: a user who has set an owned variable is exactly the user
/// most likely to be clearing a record that an earlier run left behind. A
/// recovery child never reinterprets the variables its parent injected as user
/// configuration, so only an untagged launch checks for a user opt-out.
///
/// `--safe-rendering` and a user-set owned variable are two incompatible answers
/// to the same question, so neither is guessed: the request is refused.
pub open spec fn reconciled(
    state_dir: Result<(), Seq<char>>,
    identifier: Seq<char>,
    version: Seq<char>,
    flags: Flags,
    env: Map<Seq<char>, Seq<char>>,
    pid: u32,
) -> BootModel {
    let session = launched(identifier, version, env, pid);
    let present = present_in(session.package.owned(), env);
    match state_dir {
        Err(error) => Turn::Done(Boot::Off(Disabled::NoStateDir(error))),
        Ok(()) => if flags.reset_rendering_mode {
            Turn::Ask(Booting::ResetLock)
        } else {
            match tag_in(env) {
                Some(tag) => session.starts_as_child(tag),
                None => if present.len() > 0 {
                    if flags.safe_rendering {
                        Turn::Done(Boot::Fatal(conflict(present)))
                    } else {
                        Turn::Done(Boot::Off(Disabled::UserEnv(present)))
                    }
                } else {
                    session.selects_tier(flags.safe_rendering)
                },
            }
        },
    }
}

impl Booting<Seq<char>> {
    /// The request this boot waits with.
    pub open spec fn asks(self) -> Request<Seq<char>> {
        match self {
            Booting::ResetLock => Request::Lock,
            Booting::ResetClear => Request::Clear,
            Booting::ResetUnlock { .. } => Request::Unlock,
            Booting::Read(_) => Request::Read,
            Booting::Observe(session, _) => Request::Observe { name: session.dbus_name },
            Booting::BusId(_, _, _) => Request::BusId,
            Booting::Probe(_, _, _, _, pid) => Request::Probe { pid },
            Booting::DiscardLock(_) => Request::Lock,
            Booting::DiscardClear(_) => Request::Clear,
            Booting::DiscardUnlock(_) => Request::Unlock,
            Booting::Mint(_) => Request::Mint,
            Booting::HandOff(_, task) => task.asks(),
            Booting::ExhaustMint(_) => Request::Mint,
            Booting::Exhaust(_, task) => task.asks(),
            Booting::Claim(_, task) => task.asks(),
        }
    }

    /// The boot after a reply.
    pub open spec fn next(self, reply: Reply<Seq<char>>) -> BootModel {
        match (self, reply) {
            (Booting::ResetLock, Reply::Locked(Ok(()))) => Turn::Ask(Booting::ResetClear),
            // Another process is mid-transition. Clearing without the lock could
            // delete a record a live child is about to claim.
            (Booting::ResetLock, Reply::Locked(Err(error))) => Turn::Done(
                Boot::Fatal("could not clear renderer state: "@ + error),
            ),
            (Booting::ResetClear, Reply::Cleared(cleared)) => Turn::Ask(
                Booting::ResetUnlock { cleared },
            ),
            (Booting::ResetUnlock { cleared }, Reply::Done) => Turn::Done(Boot::Reset { cleared }),
            (Booting::Read(session), Reply::Found(None)) => session.runs_selected_tier(),
            (Booting::Read(session), Reply::Found(Some(record))) => Turn::Ask(
                Booting::Observe(session, record),
            ),
            (Booting::Observe(session, record), Reply::Observed(observation)) => Turn::Ask(
                Booting::BusId(session, record, observation),
            ),
            (Booting::BusId(session, record, observation), Reply::Bus(bus_id)) => session.weighs(
                record,
                observation,
                bus_id,
            ),
            (
                Booting::Probe(session, record, observation, bus_id, _),
                Reply::Alive(alive),
            ) => session.acts_on(
                record,
                decision(record, observation, bus_id, session.version, alive),
            ),
            (Booting::DiscardLock(session), Reply::Locked(Ok(()))) => Turn::Ask(
                Booting::DiscardClear(session),
            ),
            (Booting::DiscardLock(session), Reply::Locked(Err(_))) => session.runs_selected_tier(),
            (Booting::DiscardClear(session), Reply::Cleared(_)) => Turn::Ask(
                Booting::DiscardUnlock(session),
            ),
            (Booting::DiscardUnlock(session), Reply::Done) => session.runs_selected_tier(),
            (Booting::Mint(session), Reply::Minted(episode)) => session.hands_off_or_runs(
                Some(episode),
                session.tier,
            ),
            (Booting::HandOff(session, task), reply) => match task.next(reply) {
                Turn::Ask(task) => Turn::Ask(Booting::HandOff(session, task)),
                Turn::Done(handoff) => Turn::Done(session.after_hand_off(handoff)),
            },
            (Booting::ExhaustMint(session), Reply::Minted(episode)) => Turn::Ask(
                Booting::Exhaust(session, session.exhausting(episode)),
            ),
            (Booting::Exhaust(session, task), reply) => match task.next(reply) {
                Turn::Ask(task) => Turn::Ask(Booting::Exhaust(session, task)),
                Turn::Done(()) => Turn::Done(Boot::Run(session)),
            },
            (Booting::Claim(session, task), reply) => match task.next(reply) {
                Turn::Ask(task) => Turn::Ask(Booting::Claim(session, task)),
                Turn::Done(claimed) => Turn::Done(session.after_claim(claimed)),
            },
            _ => Turn::Ask(self),
        }
    }
}

/// Reconcile persisted state and select this launch's renderer tier.
///
/// `state_dir` says whether there is a place for durable state, `identifier` is
/// the bundle identifier, which names the single-instance bus name, and
/// `version` invalidates a persisted tier across an upgrade.
pub fn reconcile(
    state_dir: Result<(), String>,
    identifier: &str,
    version: &str,
    args: &Vec<Option<String>>,
    env: &Env,
    pid: u32,
) -> (turn: BootTurn)
    ensures
        turn@ == reconciled(
            settled(state_dir),
            identifier@,
            version@,
            flags_in(readable(args@)),
            env@,
            pid,
        ),
{
    let flags = parse(args);
    let package = Package::detect(env);
    let tag = Tag::read(env);
    match state_dir {
        Ok(()) => {},
        Err(error) => {
            return Turn::Done(Boot::Off(Disabled::NoStateDir(error)));
        },
    }
    let session = Session {
        package,
        version: version.to_owned(),
        dbus_name: single_instance_name(identifier),
        pid,
        tier: 0,
        episode: None,
        frozen: false,
        crashed: false,
    };
    if flags.reset_rendering_mode {
        return Turn::Ask(Booting::ResetLock);
    }
    match tag {
        Some(tag) => session.start_as_child(tag),
        None => {
            let present = owned_present(package, env);
            assert(present@.len() == texts(present@).len());
            if present.len() > 0 {
                if flags.safe_rendering {
                    Turn::Done(Boot::Fatal(conflict_message(&present)))
                } else {
                    Turn::Done(Boot::Off(Disabled::UserEnv(present)))
                }
            } else {
                session.select_tier(flags.safe_rendering)
            }
        },
    }
}

impl Session<String> {
    /// Untagged launch: force the terminal tier, or look at the record first.
    fn select_tier(self, safe_rendering: bool) -> (turn: BootTurn)
        ensures
            turn@ == self@.selects_tier(safe_rendering),
    {
        if safe_rendering {
            let mut session = self;
            session.tier = session.package.terminal_tier();
            session.frozen = true;
            session.run_selected_tier()
        } else {
            Turn::Ask(Booting::Read(self))
        }
    }

    /// Untagged launch with a record and the bus's word on the name: ask after the
    /// recorded child if that matters, otherwise decide.
    fn weigh(self, record: Record, observation: Observation, bus_id: Option<String>) -> (turn:
        BootTurn)
        ensures
            turn@ == self@.weighs(record@, observation@, opt(bus_id)),
    {
        match pid_to_probe(&record, &observation, self.version.as_str()) {
            Some(pid) => Turn::Ask(Booting::Probe(self, record, observation, bus_id, pid)),
            None => {
                let decision = judge(&self, &record, &observation, &bus_id, false);
                self.act_on(record, decision)
            },
        }
    }

    /// Untagged launch with a record: run the selected tier here or hand off to
    /// a child that can.
    fn act_on(self, record: Record, decision: Decision) -> (turn: BootTurn)
        requires
            decision@ is RetrySameTier ==> record.generation == 0,
        ensures
            turn@ == self@.acts_on(record@, decision@),
    {
        let mut session = self;
        match decision {
            Decision::Defer(_) => Turn::Done(Boot::Run(session)),
            Decision::DiscardAndBaseline { reason: _ } => Turn::Ask(Booting::DiscardLock(session)),
            Decision::ReuseProfile { tier } => {
                session.tier = tier;
                session.run_selected_tier()
            },
            Decision::StopExhausted { tier: _ } => {
                session.frozen = true;
                Turn::Done(Boot::Run(session))
            },
            Decision::RetrySameTier { reason: _, tier } => {
                session.tier = tier;
                let episode = retry_of(&record);
                session.hand_off_or_run(Some(episode), tier)
            },
            Decision::AdvanceOrStop { reason: _, tier } => session.step_down(tier),
        }
    }

    /// Continue here when this process already carries the selected tier's
    /// environment, otherwise hand off to a child that carries it exactly.
    fn run_selected_tier(self) -> (turn: BootTurn)
        ensures
            turn@ == self@.runs_selected_tier(),
    {
        if self.tier == 0 {
            Turn::Done(Boot::Run(self))
        } else if self.frozen {
            let tier: usize = self.tier;
            self.hand_off_or_run(None, tier)
        } else {
            Turn::Ask(Booting::Mint(self))
        }
    }

    /// Move one tier down for a failed attempt, or stop at the terminal tier.
    fn step_down(self, failed: usize) -> (turn: BootTurn)
        ensures
            turn@ == self@.steps_down(failed),
    {
        let mut session = self;
        match advance(session.package, failed) {
            Advance::Tier(next) => {
                session.tier = next;
                Turn::Ask(Booting::Mint(session))
            },
            Advance::Exhausted => {
                session.tier = failed;
                session.frozen = true;
                match &session.episode {
                    Some(episode) => {
                        let task = session.note_exhausted(episode);
                        Turn::Ask(Booting::Exhaust(session, task))
                    },
                    None => Turn::Ask(Booting::ExhaustMint(session)),
                }
            },
        }
    }

    /// Recovery-child path: exclusively claim the record this child was
    /// launched for, and record `started` as its first action.
    fn start_as_child(self, tag: Tag) -> (turn: BootTurn)
        ensures
            turn@ == self@.starts_as_child(tag@),
    {
        let mut session = self;
        match session.package.tier_named(tag.profile.as_str()) {
            None => {
                session.frozen = true;
                Turn::Done(Boot::Run(session))
            },
            Some(tier) => {
                session.tier = tier;
                match tag.episode {
                    None => {
                        session.frozen = true;
                        Turn::Done(Boot::Run(session))
                    },
                    Some(episode) => {
                        let task = claim(episode, session.pid);
                        Turn::Ask(Booting::Claim(session, task))
                    },
                }
            },
        }
    }

    fn claimed(self, claimed: Claimed) -> (boot: Boot)
        ensures
            boot@ == self@.after_claim(claimed@),
    {
        let mut session = self;
        match claimed {
            Claimed::Owner { episode, tier } => {
                session.tier = tier;
                session.episode = Some(episode);
                Boot::Run(session)
            },
            Claimed::Superseded(_) => Boot::Superseded,
            Claimed::Untracked(_) => {
                session.frozen = true;
                Boot::Run(session)
            },
        }
    }

    /// Hand off to a child at `tier`, or run on here if the handoff is refused.
    /// Only reached before the app exists, so nothing is held and every refusal
    /// leaves this process exactly as it was launched.
    fn hand_off_or_run(self, episode: Option<Episode>, tier: usize) -> (turn: BootTurn)
        ensures
            turn@ == self@.hands_off_or_runs(opt(episode), tier),
    {
        match hand_off(self.attempt_at(tier, Release::NothingHeld), episode) {
            Turn::Ask(task) => Turn::Ask(Booting::HandOff(self, task)),
            Turn::Done(handoff) => Turn::Done(self.handed_off(handoff)),
        }
    }

    fn handed_off(self, handoff: Handoff) -> (boot: Boot)
        ensures
            boot@ == self@.after_hand_off(handoff@),
    {
        let mut session = self;
        match handoff {
            Handoff::Launched => Boot::HandedOff,
            Handoff::RefusedBeforeRelease(_) => {
                session.tier = 0;
                session.frozen = true;
                Boot::Run(session)
            },
            Handoff::RefusedAfterRelease(refusal) => Boot::Fatal(
                labelled(
                    "renderer handoff refused after an unexpected release: ",
                    refusal.message().as_str(),
                ),
            ),
        }
    }

    fn attempt_at(&self, tier: usize, release: Release) -> (attempt: Attempt)
        ensures
            attempt@ == self@.attempt(tier, release),
    {
        Attempt {
            dbus_name: self.dbus_name.clone(),
            package: self.package,
            version: self.version.clone(),
            tier,
            release,
        }
    }

    /// A receipt of this process for `episode`.
    fn record(&self, phase: Phase, episode: &Episode) -> (record: Record)
        ensures
            record@ == self@.receipt(phase, episode@),
    {
        let mut record = Record::new(
            phase,
            episode.token.as_str(),
            episode.generation,
            self.profile_name(),
            self.tier,
            self.version.as_str(),
        );
        record.pid = Some(self.pid);
        record
    }

    /// The name of the tier this process runs.
    pub fn profile_name(&self) -> (name: &'static str)
        ensures
            name@ == self@.profile(),
    {
        profile_name(self.package, self.tier)
    }

    fn note_exhausted(&self, episode: &Episode) -> (task: Exhausting)
        ensures
            task@ == self@.exhausting(episode@),
    {
        Exhausting {
            package: self.package,
            record: self.record(Phase::Exhausted, episode),
            stage: ExhaustStage::Lock,
        }
    }
}

impl Booting<String> {
    /// The request this boot waits with.
    pub fn request(&self) -> (request: Request)
        ensures
            request@ == self@.asks(),
    {
        match self {
            Booting::ResetLock => Request::Lock,
            Booting::ResetClear => Request::Clear,
            Booting::ResetUnlock { cleared: _ } => Request::Unlock,
            Booting::Read(_) => Request::Read,
            Booting::Observe(session, _) => Request::Observe { name: session.dbus_name.clone() },
            Booting::BusId(_, _, _) => Request::BusId,
            Booting::Probe(_, _, _, _, pid) => Request::Probe { pid: *pid },
            Booting::DiscardLock(_) => Request::Lock,
            Booting::DiscardClear(_) => Request::Clear,
            Booting::DiscardUnlock(_) => Request::Unlock,
            Booting::Mint(_) => Request::Mint,
            Booting::HandOff(_, task) => task.request(),
            Booting::ExhaustMint(_) => Request::Mint,
            Booting::Exhaust(_, task) => task.request(),
            Booting::Claim(_, task) => task.request(),
        }
    }

    /// Take the next turn.
    #[verifier::rlimit(40)]
    pub fn step(self, reply: Reply) -> (turn: BootTurn)
        ensures
            turn@ == self@.next(reply@),
    {
        match (self, reply) {
            (Booting::ResetLock, Reply::Locked(result)) => match result {
                Ok(()) => Turn::Ask(Booting::ResetClear),
                Err(error) => Turn::Done(
                    Boot::Fatal(labelled("could not clear renderer state: ", error.as_str())),
                ),
            },
            (Booting::ResetClear, Reply::Cleared(cleared)) => Turn::Ask(
                Booting::ResetUnlock { cleared },
            ),
            (Booting::ResetUnlock { cleared }, Reply::Done) => Turn::Done(Boot::Reset { cleared }),
            (Booting::Read(session), Reply::Found(found)) => match found {
                None => session.run_selected_tier(),
                Some(record) => Turn::Ask(Booting::Observe(session, record)),
            },
            (Booting::Observe(session, record), Reply::Observed(observation)) => Turn::Ask(
                Booting::BusId(session, record, observation),
            ),
            (Booting::BusId(session, record, observation), Reply::Bus(bus_id)) => session.weigh(
                record,
                observation,
                bus_id,
            ),
            (Booting::Probe(session, record, observation, bus_id, _), Reply::Alive(alive)) => {
                let decision = judge(&session, &record, &observation, &bus_id, alive);
                session.act_on(record, decision)
            },
            (Booting::DiscardLock(session), Reply::Locked(result)) => match result {
                Ok(()) => Turn::Ask(Booting::DiscardClear(session)),
                Err(_) => session.run_selected_tier(),
            },
            (Booting::DiscardClear(session), Reply::Cleared(_)) => Turn::Ask(
                Booting::DiscardUnlock(session),
            ),
            (Booting::DiscardUnlock(session), Reply::Done) => session.run_selected_tier(),
            (Booting::Mint(session), Reply::Minted(episode)) => {
                let tier: usize = session.tier;
                session.hand_off_or_run(Some(episode), tier)
            },
            (Booting::HandOff(session, task), reply) => match task.step(reply) {
                Turn::Ask(task) => Turn::Ask(Booting::HandOff(session, task)),
                Turn::Done(handoff) => Turn::Done(session.handed_off(handoff)),
            },
            (Booting::ExhaustMint(session), Reply::Minted(episode)) => {
                let task = session.note_exhausted(&episode);
                Turn::Ask(Booting::Exhaust(session, task))
            },
            (Booting::Exhaust(session, task), reply) => match task.step(reply) {
                Turn::Ask(task) => Turn::Ask(Booting::Exhaust(session, task)),
                Turn::Done(()) => Turn::Done(Boot::Run(session)),
            },
            (Booting::Claim(session, task), reply) => match task.step(reply) {
                Turn::Ask(task) => Turn::Ask(Booting::Claim(session, task)),
                Turn::Done(claimed) => Turn::Done(session.claimed(claimed)),
            },
            (waiting, _) => Turn::Ask(waiting),
        }
    }
}

/// What to do with the record that a launch found.
pub(crate) fn judge(
    session: &Session,
    record: &Record,
    observation: &Observation,
    bus_id: &Option<String>,
    alive: bool,
) -> (result: Decision)
    ensures
        result@ == decision(record@, observation@, opt(*bus_id), session@.version, alive),
{
    let bus = match bus_id {
        Some(id) => Some(id.as_str()),
        None => None,
    };
    decide(record, observation, bus, session.version.as_str(), alive)
}

// ── Receipts ────────────────────────────────────────────────────────────────

impl Session<Seq<char>> {
    /// The first turn of a phase receipt. A process without an episode has
    /// nothing to write.
    pub open spec fn notes(self, phase: Phase) -> Turn<Noting<Seq<char>>, ()> {
        match self.episode {
            None => Turn::Done(()),
            Some(episode) => Turn::Ask(
                Noting {
                    dbus_name: self.dbus_name,
                    receipt: self.receipt(phase, episode),
                    stage: NoteStage::Lock,
                },
            ),
        }
    }

    /// The first turn of the crash-free receipt. After an eligible crash, this
    /// tier as crash-free would be the opposite of what happened.
    pub open spec fn confirms(self) -> Turn<Noting<Seq<char>>, ()> {
        if self.crashed {
            Turn::Done(())
        } else {
            self.notes(Phase::Confirmed)
        }
    }
}

impl Session<String> {
    /// Record that this process holds the single-instance name.
    pub fn note_owned(&self) -> (turn: Turn<Noting, ()>)
        ensures
            turn@ == self@.notes(Phase::Owned),
    {
        self.note(Phase::Owned)
    }

    /// Record that this process outlived the crash-eligibility window: the
    /// "last crash-free startup profile" fact. Version-scoped, and never a claim
    /// that rendering is actually correct.
    pub fn note_confirmed(&self) -> (turn: Turn<Noting, ()>)
        ensures
            turn@ == self@.confirms(),
    {
        if self.crashed {
            return Turn::Done(());
        }
        self.note(Phase::Confirmed)
    }

    /// Write a phase receipt for the episode this process owns.
    fn note(&self, phase: Phase) -> (turn: Turn<Noting, ()>)
        ensures
            turn@ == self@.notes(phase),
    {
        match &self.episode {
            None => Turn::Done(()),
            Some(episode) => Turn::Ask(
                Noting {
                    dbus_name: self.dbus_name.clone(),
                    receipt: self.record(phase, episode),
                    stage: NoteStage::Lock,
                },
            ),
        }
    }
}

impl Session<String> {
    /// How long this process, `elapsed` nanoseconds after its launch, still has
    /// before it counts as a crash-free start.
    pub fn until_confirmation(&self, elapsed: u128) -> (left: u128)
        ensures
            left == (if elapsed <= CRASH_ELIGIBILITY_WINDOW {
                CRASH_ELIGIBILITY_WINDOW - elapsed
            } else {
                0
            }),
    {
        if elapsed <= CRASH_ELIGIBILITY_WINDOW {
            CRASH_ELIGIBILITY_WINDOW - elapsed
        } else {
            0
        }
    }
}

// ── Crashes ─────────────────────────────────────────────────────────────────

/// What a live app must do about a web-process termination.
#[derive(Clone, Copy, Debug, PartialEq, Eq, Structural)]
pub enum CrashResponse {
    /// A child carrying the next tier is Buzz now. Exit.
    HandedOff,
    /// The relaunch was refused *after* the single-instance name was released.
    /// This process no longer owns the name it needs to be the app, and cannot
    /// take it back, so it must exit rather than linger as a second instance.
    Stranded,
    /// Nothing was released and nothing was launched. Carry on.
    Continue,
}

impl View for CrashResponse {
    type V = CrashResponse;

    open spec fn view(&self) -> CrashResponse {
        *self
    }
}

/// Where the answer to a crash stands.
#[derive(Debug, PartialEq, Eq)]
pub enum Crashing<S = String> {
    /// A child at the next tier needs a fresh episode.
    Mint { session: Session<S>, next: usize },
    HandOff(HandOff<S>),
    /// The ladder is spent, and no episode was under way.
    ExhaustMint(Session<S>),
    Exhaust(Exhausting<S>),
}

impl View for Crashing<String> {
    type V = Crashing<Seq<char>>;

    open spec fn view(&self) -> Crashing<Seq<char>> {
        match self {
            Crashing::Mint { session, next } => Crashing::Mint { session: session@, next: *next },
            Crashing::HandOff(task) => Crashing::HandOff(task@),
            Crashing::ExhaustMint(session) => Crashing::ExhaustMint(session@),
            Crashing::Exhaust(task) => Crashing::Exhaust(task@),
        }
    }
}

/// A live app after its handoff: nothing was released, so this process is still
/// the app; or the single-instance plugin is gone for good, and staying would
/// leave a Buzz that no longer owns the name.
pub open spec fn response(handoff: Handoff<Seq<char>>) -> CrashResponse {
    match handoff {
        Handoff::Launched => CrashResponse::HandedOff,
        Handoff::RefusedBeforeRelease(_) => CrashResponse::Continue,
        Handoff::RefusedAfterRelease(_) => CrashResponse::Stranded,
    }
}

impl Session<Seq<char>> {
    /// This process once it has seen a termination.
    pub open spec fn hit_by(self, termination: Termination, since_launch: u128) -> Session<
        Seq<char>,
    > {
        Session { crashed: self.crashed || eligible(termination, since_launch), ..self }
    }

    /// The first turn of the answer to a termination.
    ///
    /// One-shot: the signal can fire again while a handoff is in flight, and a
    /// second handoff would spawn a second child for a second episode. Only the
    /// first eligible crash is acted on, and none by a frozen launch.
    pub open spec fn answers(self, termination: Termination, since_launch: u128) -> Turn<
        Crashing<Seq<char>>,
        CrashResponse,
    > {
        if !eligible(termination, since_launch) || self.crashed || self.frozen {
            Turn::Done(CrashResponse::Continue)
        } else {
            let hit = self.hit_by(termination, since_launch);
            match next_rung(self.package, self.tier) {
                Advance::Tier(next) => Turn::Ask(Crashing::Mint { session: hit, next }),
                Advance::Exhausted => match self.episode {
                    Some(episode) => Turn::Ask(Crashing::Exhaust(hit.exhausting(episode))),
                    None => Turn::Ask(Crashing::ExhaustMint(hit)),
                },
            }
        }
    }

    /// Hand the live app over to a child at `next`.
    pub open spec fn relaunches(self, episode: Episode<Seq<char>>, next: usize) -> Turn<
        Crashing<Seq<char>>,
        CrashResponse,
    > {
        match handed(self.attempt(next, Release::SingleInstanceName), Some(episode)) {
            Turn::Ask(task) => Turn::Ask(Crashing::HandOff(task)),
            Turn::Done(handoff) => Turn::Done(response(handoff)),
        }
    }
}

impl Crashing<Seq<char>> {
    /// The request this answer waits with.
    pub open spec fn asks(self) -> Request<Seq<char>> {
        match self {
            Crashing::Mint { .. } => Request::Mint,
            Crashing::HandOff(task) => task.asks(),
            Crashing::ExhaustMint(_) => Request::Mint,
            Crashing::Exhaust(task) => task.asks(),
        }
    }

    /// The answer after a reply.
    pub open spec fn next(self, reply: Reply<Seq<char>>) -> Turn<
        Crashing<Seq<char>>,
        CrashResponse,
    > {
        match (self, reply) {
            (Crashing::Mint { session, next }, Reply::Minted(episode)) => session.relaunches(
                episode,
                next,
            ),
            (Crashing::HandOff(task), reply) => match task.next(reply) {
                Turn::Ask(task) => Turn::Ask(Crashing::HandOff(task)),
                Turn::Done(handoff) => Turn::Done(response(handoff)),
            },
            (Crashing::ExhaustMint(session), Reply::Minted(episode)) => Turn::Ask(
                Crashing::Exhaust(session.exhausting(episode)),
            ),
            (Crashing::Exhaust(task), reply) => match task.next(reply) {
                Turn::Ask(task) => Turn::Ask(Crashing::Exhaust(task)),
                Turn::Done(()) => Turn::Done(CrashResponse::Continue),
            },
            _ => Turn::Ask(self),
        }
    }
}

fn respond(handoff: Handoff) -> (result: CrashResponse)
    ensures
        result == response(handoff@),
{
    match handoff {
        Handoff::Launched => CrashResponse::HandedOff,
        Handoff::RefusedBeforeRelease(_) => CrashResponse::Continue,
        Handoff::RefusedAfterRelease(_) => CrashResponse::Stranded,
    }
}

impl Session<String> {
    /// React to a web-process termination, `since_launch` nanoseconds into this
    /// process.
    pub fn on_web_process_terminated(
        &mut self,
        termination: Termination,
        since_launch: u128,
    ) -> (turn: Turn<Crashing, CrashResponse>)
        ensures
            final(self)@ == old(self)@.hit_by(termination, since_launch),
            turn@ == old(self)@.answers(termination, since_launch),
    {
        if !advances_ladder(termination, since_launch) {
            return Turn::Done(CrashResponse::Continue);
        }
        let handled = self.crashed;
        self.crashed = true;
        if handled || self.frozen {
            return Turn::Done(CrashResponse::Continue);
        }
        match advance(self.package, self.tier) {
            Advance::Tier(next) => Turn::Ask(Crashing::Mint { session: self.clone(), next }),
            Advance::Exhausted => match &self.episode {
                Some(episode) => Turn::Ask(Crashing::Exhaust(self.note_exhausted(episode))),
                None => Turn::Ask(Crashing::ExhaustMint(self.clone())),
            },
        }
    }
}

impl Crashing<String> {
    /// The request this answer waits with.
    pub fn request(&self) -> (request: Request)
        ensures
            request@ == self@.asks(),
    {
        match self {
            Crashing::Mint { session: _, next: _ } => Request::Mint,
            Crashing::HandOff(task) => task.request(),
            Crashing::ExhaustMint(_) => Request::Mint,
            Crashing::Exhaust(task) => task.request(),
        }
    }

    /// Take the next turn.
    pub fn step(self, reply: Reply) -> (turn: Turn<Crashing, CrashResponse>)
        ensures
            turn@ == self@.next(reply@),
    {
        match (self, reply) {
            (Crashing::Mint { session, next }, Reply::Minted(episode)) => {
                let attempt = session.attempt_at(next, Release::SingleInstanceName);
                match hand_off(attempt, Some(episode)) {
                    Turn::Ask(task) => Turn::Ask(Crashing::HandOff(task)),
                    Turn::Done(handoff) => Turn::Done(respond(handoff)),
                }
            },
            (Crashing::HandOff(task), reply) => match task.step(reply) {
                Turn::Ask(task) => Turn::Ask(Crashing::HandOff(task)),
                Turn::Done(handoff) => Turn::Done(respond(handoff)),
            },
            (Crashing::ExhaustMint(session), Reply::Minted(episode)) => Turn::Ask(
                Crashing::Exhaust(session.note_exhausted(&episode)),
            ),
            (Crashing::Exhaust(task), reply) => match task.step(reply) {
                Turn::Ask(task) => Turn::Ask(Crashing::Exhaust(task)),
                Turn::Done(()) => Turn::Done(CrashResponse::Continue),
            },
            (waiting, _) => Turn::Ask(waiting),
        }
    }
}

} // verus!
