//! Whole runs of the recovery tasks against a host in memory.
//!
//! The host keeps the record, the claim files and the lock, answers every request
//! truthfully, and remembers what it was asked. Two processes are two tasks that
//! share one host.

use buzz::render_recovery::claim::{claim, Claimed, Claiming};
use buzz::render_recovery::cli;
use buzz::render_recovery::dbus::{Observation, Owner};
use buzz::render_recovery::episode::{profile_name, Episode, Termination};
use buzz::render_recovery::hand_off::{hand_off, Attempt, HandOff, Release};
use buzz::render_recovery::launcher::{
    exact_env, EnvChange, Handoff, Refusal, Tag, EPISODE, FORCED, GENERATION, PROFILE,
};
use buzz::render_recovery::profiles::{Env, Package};
use buzz::render_recovery::protocol::{mint, Reply, Request, Turn};
use buzz::render_recovery::receipt::Noting;
use buzz::render_recovery::remark::{boot_remark, Remark};
use buzz::render_recovery::session::{
    reconcile, Boot, Booting, CrashResponse, Crashing, Disabled, Session,
};
use buzz::render_recovery::state::{
    claim_file, claim_outcome, is_claim_of, ClaimAttempt, Phase, Record,
};
use buzz::render_recovery::task::{boot_turn, crash_turn, note_turn, Outcome, Task};

const TOKEN: &str = "a-token";
const VERSION: &str = "1.2.3";
const IDENTIFIER: &str = "xyz.buzz.app";
const PID: u32 = 4242;

fn record(phase: Phase, generation: u32, tier: usize) -> Record {
    Record::new(
        phase,
        TOKEN,
        generation,
        profile_name(Package::Native, tier),
        tier,
        VERSION,
    )
}

fn env_from(vars: &[(&str, &str)]) -> Env {
    let mut env = Env::new();
    for (key, value) in vars {
        env.set(key.to_string(), value.to_string());
    }
    env
}

// ── The host ─────────────────────────────────────────────────────────────────

/// What the bus says about the single-instance name.
enum Name {
    Free,
    Owned(&'static str, Option<u32>),
    Unavailable(&'static str),
}

struct Host {
    record: Option<Record>,
    claims: Vec<String>,
    held: bool,
    /// How many more locks are granted.
    locks: usize,
    /// How many more writes succeed.
    writes: usize,
    name: Name,
    bus: Option<&'static str>,
    alive: bool,
    binary: Result<(), &'static str>,
    spawn: Result<u32, &'static str>,
    /// What another launch writes while a child is being spawned.
    competitor: Option<Record>,
    released: bool,
    spawned: Vec<(Package, usize, Tag)>,
    asked: Vec<&'static str>,
    log: Vec<String>,
}

impl Host {
    fn new(record: Option<Record>) -> Host {
        Host {
            record,
            claims: Vec::new(),
            held: false,
            locks: usize::MAX,
            writes: usize::MAX,
            name: Name::Free,
            bus: Some("bus-1"),
            alive: false,
            binary: Ok(()),
            spawn: Ok(77),
            competitor: None,
            released: false,
            spawned: Vec::new(),
            asked: Vec::new(),
            log: Vec::new(),
        }
    }

    /// A host on which no child can be spawned.
    fn refusing(record: Option<Record>) -> Host {
        let mut host = Host::new(record);
        host.spawn = Err("no child");
        host
    }

    fn answer(&mut self, request: Request) -> Reply {
        match request {
            Request::Lock => {
                self.asked.push("lock");
                assert!(!self.held, "the lock is held already");
                if self.locks == 0 {
                    return Reply::Locked(Err("lock busy".to_string()));
                }
                self.locks -= 1;
                self.held = true;
                Reply::Locked(Ok(()))
            }
            Request::Unlock => {
                self.asked.push("unlock");
                assert!(self.held, "the lock is not held");
                self.held = false;
                Reply::Done
            }
            Request::Read => {
                self.asked.push("read");
                Reply::Found(self.record.clone())
            }
            Request::Write(record) => {
                self.asked.push("write");
                assert!(self.held, "a write needs the lock");
                if self.writes == 0 {
                    return Reply::Written(Err("disk full".to_string()));
                }
                self.writes -= 1;
                self.record = Some(record);
                Reply::Written(Ok(()))
            }
            Request::Clear => {
                self.asked.push("clear");
                assert!(self.held, "clearing needs the lock");
                let existed = self.record.is_some() || !self.claims.is_empty();
                self.record = None;
                self.claims.clear();
                Reply::Cleared(existed)
            }
            Request::PruneClaims { token } => {
                self.asked.push("prune");
                assert!(self.held, "pruning needs the lock");
                self.claims.retain(|name| is_claim_of(name, &token));
                Reply::Done
            }
            Request::Claim(episode) => {
                self.asked.push("claim");
                assert!(self.held, "a claim needs the lock");
                let name = claim_file(&episode.token, episode.generation);
                if self.claims.contains(&name) {
                    Reply::Claimed(claim_outcome(ClaimAttempt::Exists))
                } else {
                    self.claims.push(name);
                    Reply::Claimed(claim_outcome(ClaimAttempt::Created))
                }
            }
            Request::Mint => {
                self.asked.push("mint");
                mint()
            }
            Request::Observe { name } => {
                self.asked.push("observe");
                assert_eq!(name, "xyz.buzz.app.SingleInstance");
                Reply::Observed(match self.name {
                    Name::Free => Observation::Free,
                    Name::Owned(unique_name, pid) => Observation::Owned(Owner {
                        unique_name: unique_name.to_string(),
                        pid,
                    }),
                    Name::Unavailable(detail) => Observation::Unavailable(detail.to_string()),
                })
            }
            Request::BusId => {
                self.asked.push("bus id");
                Reply::Bus(self.bus.map(|id| id.to_string()))
            }
            Request::Probe { pid: _ } => {
                self.asked.push("probe");
                Reply::Alive(self.alive)
            }
            Request::Binary => {
                self.asked.push("binary");
                Reply::Located(self.binary.map_err(|error| error.to_string()))
            }
            Request::Release => {
                self.asked.push("release");
                assert!(!self.released, "released twice");
                self.released = true;
                Reply::Done
            }
            Request::Spawn { package, tier, tag } => {
                self.asked.push("spawn");
                assert!(!self.held, "no child is spawned under the lock");
                if let Some(competitor) = self.competitor.take() {
                    self.record = Some(competitor);
                }
                if self.spawn.is_ok() {
                    self.spawned.push((package, tier, tag));
                }
                Reply::Spawned(self.spawn.map_err(|error| error.to_string()))
            }
        }
    }
}

trait Run: Sized {
    type Outcome;
    fn ask(&self) -> Request;
    fn take(self, reply: Reply) -> Turn<Self, Self::Outcome>;
    fn tell(&self, reply: &Reply) -> Vec<Remark>;
}

impl Run for Task {
    type Outcome = Outcome;
    fn ask(&self) -> Request {
        self.request()
    }
    fn take(self, reply: Reply) -> Turn<Task, Outcome> {
        self.step(reply)
    }
    fn tell(&self, reply: &Reply) -> Vec<Remark> {
        self.remarks(reply)
    }
}

impl Run for Claiming {
    type Outcome = Claimed;
    fn ask(&self) -> Request {
        self.request()
    }
    fn take(self, reply: Reply) -> Turn<Claiming, Claimed> {
        self.step(reply)
    }
    fn tell(&self, reply: &Reply) -> Vec<Remark> {
        self.remark(reply).into_iter().collect()
    }
}

impl Run for HandOff {
    type Outcome = Handoff;
    fn ask(&self) -> Request {
        self.request()
    }
    fn take(self, reply: Reply) -> Turn<HandOff, Handoff> {
        self.step(reply)
    }
    fn tell(&self, reply: &Reply) -> Vec<Remark> {
        self.remarks(reply)
    }
}

fn drive<T: Run>(host: &mut Host, turn: Turn<T, T::Outcome>) -> T::Outcome {
    let mut turn = turn;
    let mut answers = 0;
    loop {
        match turn {
            Turn::Done(outcome) => {
                assert!(!host.held, "a run ends without the lock");
                assert!(answers <= 18, "a run ends in time");
                return outcome;
            }
            Turn::Ask(task) => {
                let reply = host.answer(task.ask());
                for remark in task.tell(&reply) {
                    host.log.push(remark.message());
                }
                turn = task.take(reply);
                answers += 1;
            }
        }
    }
}

fn boot_with(host: &mut Host, flags: &[&str], env: &Env) -> Boot {
    let args = flags.iter().map(|flag| Some(flag.to_string())).collect();
    let turn = reconcile(Ok(()), IDENTIFIER, VERSION, &args, env, PID);
    match drive(host, boot_turn(turn)) {
        Outcome::Booted(boot) => boot,
        other => panic!("a boot ends as a boot: {other:?}"),
    }
}

fn boot(host: &mut Host) -> Boot {
    boot_with(host, &[], &env_from(&[]))
}

fn run_here(boot: Boot) -> Session {
    match boot {
        Boot::Run(session) => session,
        other => panic!("this launch runs here: {other:?}"),
    }
}

fn crash(host: &mut Host, session: &mut Session) -> CrashResponse {
    let turn = session.on_web_process_terminated(Termination::Crashed, 0);
    match drive(host, crash_turn(turn)) {
        Outcome::Answered(response) => response,
        other => panic!("a crash ends in a response: {other:?}"),
    }
}

fn note(host: &mut Host, turn: Turn<Noting, ()>) {
    assert_eq!(drive(host, note_turn(turn)), Outcome::Noted);
}

fn tagged(profile: &str, token: &str, generation: &str) -> Env {
    env_from(&[(PROFILE, profile), (EPISODE, token), (GENERATION, generation)])
}

// ── Flags and reset ──────────────────────────────────────────────────────────

#[test]
fn test_safe_rendering_forces_the_terminal_tier_without_persisting() {
    let mut host = Host::refusing(Some(record(Phase::Confirmed, 0, 0)));
    // Native, so the terminal tier is x11-fallback and the handoff needs a
    // spawn: the assertion is that the record is left untouched.
    let boot = boot_with(&mut host, &[cli::SAFE_RENDERING], &env_from(&[]));
    assert!(!matches!(boot, Boot::Reset { .. }));
    let after = host.record.expect("record");
    assert_eq!(after.phase, Phase::Confirmed);
    assert_eq!(after.tier, 0);
    assert_eq!(host.asked, vec!["binary", "observe", "spawn"]);
}

#[test]
fn test_reset_rendering_mode_clears_the_state_and_does_not_launch() {
    let mut host = Host::refusing(Some(record(Phase::Confirmed, 0, 2)));
    host.claims.push(claim_file(TOKEN, 0));
    let boot = boot_with(&mut host, &[cli::RESET_RENDERING_MODE], &env_from(&[]));
    assert!(matches!(boot, Boot::Reset { cleared: true }));
    assert_eq!(host.record, None);
    assert_eq!(host.claims.len(), 0);
    assert_eq!(host.asked, vec!["lock", "clear", "unlock"]);
    let again = boot_with(&mut host, &[cli::RESET_RENDERING_MODE], &env_from(&[]));
    assert!(matches!(again, Boot::Reset { cleared: false }));
}

#[test]
fn test_recovery_is_off_when_no_state_directory_exists() {
    let env = env_from(&[]);
    let turn = reconcile(
        Err("no user data directory".to_string()),
        IDENTIFIER,
        VERSION,
        &Vec::new(),
        &env,
        PID,
    );
    assert!(matches!(turn, Turn::Done(Boot::Off(Disabled::NoStateDir(_)))));
}

#[test]
fn test_a_baseline_launch_runs_here_without_writing_a_record() {
    let mut host = Host::refusing(None);
    match boot(&mut host) {
        Boot::Run(session) => assert_eq!(session.profile_name(), "full-gpu"),
        _ => panic!("a first launch runs tier 0 in this process"),
    }
    assert_eq!(host.record, None);
}

#[test]
fn a_reset_that_cannot_lock_says_so() {
    let mut host = Host::new(Some(record(Phase::Confirmed, 0, 2)));
    host.locks = 0;
    let boot = boot_with(&mut host, &[cli::RESET_RENDERING_MODE], &env_from(&[]));
    assert_eq!(boot, Boot::Fatal("could not clear renderer state: lock busy".to_string()));
    assert!(host.record.is_some());
}

// ── Forced launches, refused handoffs, and reaching reset ────────────────────

#[test]
fn test_a_forced_child_runs_its_profile_without_writing_a_record() {
    // A --safe-rendering parent hands off with BUZZ_RENDER_FORCED and no
    // episode. The child must run the profile and persist nothing: a forced
    // launch is not evidence about any tier.
    let mut host = Host::refusing(None);
    let env = env_from(&[(PROFILE, "no-accel"), (FORCED, "1")]);
    match boot_with(&mut host, &[], &env) {
        Boot::Run(session) => assert_eq!(session.profile_name(), "no-accel"),
        _ => panic!("a forced child runs in this process"),
    }
    assert_eq!(host.record, None);
    assert_eq!(host.claims.len(), 0);
}

#[test]
fn test_a_forced_child_that_crashes_does_not_advance_or_persist() {
    let mut host = Host::new(None);
    let env = env_from(&[(PROFILE, "cpu-raster"), (FORCED, "1")]);
    let mut session = run_here(boot_with(&mut host, &[], &env));

    // Even a genuine startup crash must leave a forced launch untracked:
    // otherwise the manual override would rewrite the ladder's own record.
    assert!(matches!(crash(&mut host, &mut session), CrashResponse::Continue));
    assert_eq!(host.record, None);
    // The confirmation receipt is the other write a forced launch must not make:
    // it is the persisted "last crash-free startup profile" fact, and a manual
    // override is not evidence about any tier.
    note(&mut host, session.note_owned());
    note(&mut host, session.note_confirmed());
    assert_eq!(host.record, None);
    assert!(host.asked.is_empty());
}

#[test]
fn test_a_refused_handoff_does_not_spend_the_rungs_retry() {
    // A confirmed tier-2 record: this launch wants to re-run tier 2, which
    // needs a child. The spawn is refused, so the durable state must be exactly
    // what it was: a leftover `prepared` record would make the next launch
    // burn this rung's one retry on a failure that was never about rendering.
    let before = record(Phase::Confirmed, 0, 2);
    let mut host = Host::refusing(Some(before.clone()));
    match boot(&mut host) {
        Boot::Run(session) => {
            // The handoff did not happen, so this process is still the baseline
            // it was launched as and must not claim the tier it wanted.
            assert_eq!(session.profile_name(), "full-gpu");
        }
        _ => panic!("a refused handoff leaves the app running here"),
    }
    assert_eq!(host.record, Some(before));
}

#[test]
fn test_a_post_release_refusal_strands_the_parent_and_leaves_no_record() {
    // Same rollback rule with nothing on disk, plus the lifecycle invariant:
    // the live crash path releases the single-instance name before probing it,
    // so a refusal from the launch edge arrives *after* the plugin is destroyed.
    // This process can never take the name back, so it must not run on.
    let mut host = Host::refusing(None);
    let mut session = run_here(boot(&mut host));

    let response = crash(&mut host, &mut session);

    assert!(
        host.released,
        "the live crash path releases the name before probing it"
    );
    assert!(
        matches!(response, CrashResponse::Stranded),
        "a refusal after the release must exit, never return to normal operation"
    );
    // The prepared record is still rolled back: no child exists to claim it.
    assert_eq!(host.record, None);
}

#[test]
fn test_a_pre_release_refusal_leaves_the_app_running_with_its_name() {
    // The mirror of the stranding rule: a refusal raised *before* the release
    // is recoverable by construction, because nothing was given up. State that
    // cannot be written is the earliest refusal the live crash path can reach.
    let mut host = Host::new(None);
    host.writes = 0;
    // Tier 0 needs no durable state, so this launch still comes up normally.
    let mut session = run_here(boot(&mut host));

    let response = crash(&mut host, &mut session);

    assert!(
        !host.released,
        "a refusal that precedes the release must not have released the name"
    );
    assert!(
        matches!(response, CrashResponse::Continue),
        "the app still owns its name, so it carries on"
    );
    assert!(host.spawned.is_empty());
}

#[test]
fn test_a_successful_handoff_leaves_the_prepared_record_for_the_child() {
    // The mirror of the rollback: when the child really is launched, the
    // prepared record must survive for it to claim.
    let mut host = Host::new(None);
    let mut session = run_here(boot(&mut host));
    assert!(matches!(crash(&mut host, &mut session), CrashResponse::HandedOff));
    let prepared = host.record.expect("the child's record");
    assert_eq!(prepared.phase, Phase::Prepared);
    assert_eq!(prepared.tier, 1);
    assert_eq!(prepared.generation, 0);
}

// ── The --safe-rendering conflict ────────────────────────────────────────────

#[test]
fn test_safe_rendering_against_a_user_set_owned_var_is_fatal_not_ignored() {
    // Two incompatible answers to one question. Starting anyway would ignore a
    // rescue flag from a user whose app does not come up; overriding would
    // discard configuration they typed. Neither is guessed.
    let mut host = Host::refusing(None);
    let env = env_from(&[("WEBKIT_DISABLE_DMABUF_RENDERER", "0")]);
    let Boot::Fatal(diagnostic) = boot_with(&mut host, &[cli::SAFE_RENDERING], &env) else {
        panic!("--safe-rendering under a user-set owned var must not start the app");
    };
    // The diagnostic has to name what is set and what to unset, or the user
    // cannot act on it. `0` is the value a truthiness check would drop.
    assert!(diagnostic.contains(cli::SAFE_RENDERING), "{diagnostic}");
    assert!(
        diagnostic.contains("WEBKIT_DISABLE_DMABUF_RENDERER=0"),
        "{diagnostic}"
    );
}

#[test]
fn test_an_owned_var_without_the_flag_still_only_disables_recovery() {
    // The conflict is specific to the flag. On its own a user assignment is a
    // preference, not a contradiction, so the app starts under it.
    let mut host = Host::refusing(None);
    let env = env_from(&[("WEBKIT_DISABLE_DMABUF_RENDERER", "0")]);
    let boot = boot_with(&mut host, &[], &env);
    assert!(matches!(boot, Boot::Off(Disabled::UserEnv(_))));
}

#[test]
fn test_reset_rendering_mode_works_even_with_an_owned_var_set() {
    // The user who set WEBKIT_DISABLE_DMABUF_RENDERER by hand is exactly the
    // user most likely to be clearing state an earlier run left behind. If the
    // opt-out returned first, the escape hatch would be unreachable for them.
    let mut host = Host::refusing(Some(record(Phase::Confirmed, 0, 2)));
    let env = env_from(&[("WEBKIT_DISABLE_DMABUF_RENDERER", "1")]);
    let boot = boot_with(&mut host, &[cli::RESET_RENDERING_MODE], &env);
    assert!(matches!(boot, Boot::Reset { .. }));
    assert_eq!(host.record, None);
}

// ── Transitions under contention ─────────────────────────────────────────────

#[test]
fn test_a_stale_generation_cannot_overwrite_a_record_prepared_while_it_waited() {
    // A delayed generation-0 child is mid-claim when another invocation durably
    // prepares generation 1. Split into three unsynchronized operations the
    // child would read gen 0 as current, pause, and then stamp its stale
    // `started` over the newer record.
    let mut host = Host::new(Some(record(Phase::Prepared, 0, 1)));

    // Held for the whole window in which the stale child is trying to claim.
    assert_eq!(host.answer(Request::Lock), Reply::Locked(Ok(())));

    let stale = claim(
        Episode {
            token: TOKEN.to_string(),
            generation: 0,
        },
        PID,
    );
    assert_eq!(
        stale.request(),
        Request::Lock,
        "the claim must block on the state lock, not proceed beside the holder"
    );

    // The retry becomes durable while the stale child is parked.
    let prepared = record(Phase::Prepared, 1, 1);
    assert_eq!(host.answer(Request::Write(prepared.clone())), Reply::Written(Ok(())));
    assert_eq!(host.answer(Request::Unlock), Reply::Done);

    let claimed = drive(&mut host, Turn::Ask(stale));
    // Only reachable if the child reads the record *after* the write above, which
    // is the serialization this test exists to prove.
    assert!(
        matches!(claimed, Claimed::Superseded(_)),
        "a generation-0 child must be turned away once generation 1 is current"
    );
    assert_eq!(host.record.as_ref(), Some(&prepared));
    assert_eq!(host.claims.len(), 0);
}

#[test]
fn test_a_confirmation_racing_a_handoff_does_not_resurrect_its_episode() {
    // The confirmation comes from a timer, so it can be in flight when a crash
    // handoff has already prepared the next token. Writing the old episode's
    // `confirmed` over that token would make the ladder reuse a profile the
    // crash just disproved.
    let mut host = Host::new(Some(record(Phase::Prepared, 0, 1)));
    let env = env_from(&[
        ("WEBKIT_DMABUF_RENDERER_FORCE_SHM", "1"),
        (PROFILE, "shm-transport"),
        (EPISODE, TOKEN),
        (GENERATION, "0"),
    ]);
    let session = run_here(boot_with(&mut host, &[], &env));
    note(&mut host, session.note_owned());
    assert_eq!(host.record.as_ref().expect("record").phase, Phase::Owned);

    assert_eq!(host.answer(Request::Lock), Reply::Locked(Ok(())));
    let confirming = session.note_confirmed();
    let Turn::Ask(waiting) = &confirming else {
        panic!("an owner has a confirmation to write");
    };
    assert_eq!(
        waiting.request(),
        Request::Lock,
        "the confirmation must block on the state lock"
    );

    // What the crash handoff writes: a new token at the next rung.
    let handed_off = Record::new(Phase::Prepared, "a-newer-token", 0, "cpu-raster", 2, VERSION);
    assert_eq!(host.answer(Request::Write(handed_off.clone())), Reply::Written(Ok(())));
    assert_eq!(host.answer(Request::Unlock), Reply::Done);

    note(&mut host, confirming);
    assert_eq!(
        host.record.as_ref(),
        Some(&handed_off),
        "the superseded episode's confirmation must be rejected, not written"
    );
}

#[test]
fn test_two_termination_callbacks_hand_off_exactly_once() {
    // WebKit can report a second termination while the first handoff is in
    // flight. Two handoffs would spawn two children for two episodes: two live
    // Buzz processes racing one name, with the record naming only one of them.
    let mut host = Host::new(None);
    let mut session = run_here(boot(&mut host));

    let first = session.on_web_process_terminated(Termination::Crashed, 0);
    let second = session.on_web_process_terminated(Termination::Crashed, 1);
    let handed_off = [second, first]
        .into_iter()
        .map(|turn| drive(&mut host, crash_turn(turn)))
        .filter(|outcome| *outcome == Outcome::Answered(CrashResponse::HandedOff))
        .count();

    assert_eq!(handed_off, 1, "exactly one callback may hand off");
    assert_eq!(host.spawned.len(), 1, "exactly one child may be spawned");
    // One survivor, and the durable record names the episode it was spawned for.
    let prepared = host.record.expect("the survivor's record");
    assert_eq!(prepared.phase, Phase::Prepared);
    assert_eq!(prepared.tier, 1);
    assert_eq!(prepared.generation, 0);
    assert_eq!(host.claims.len(), 0);
}

#[test]
fn test_a_rollback_does_not_erase_an_episode_prepared_after_it() {
    // The state lock is dropped between the prepared write and the spawn, which
    // is deliberate: the spawn must not run under it. So a refusal can come
    // back after another launch has prepared its own episode, and an unchecked
    // rollback would delete a record that launch's child is about to claim,
    // turning a real handoff into an untracked launch.
    let mut host = Host::refusing(Some(record(Phase::Confirmed, 0, 2)));
    host.competitor = Some(Record::new(
        Phase::Prepared,
        "a-newer-token",
        0,
        "cpu-raster",
        2,
        VERSION,
    ));

    // Wants tier 2, so it prepares a record, spawns, and is refused.
    let boot = boot(&mut host);

    assert!(matches!(boot, Boot::Run(_)), "a refusal keeps this process");
    let current = host.record.expect("the competing episode's record");
    assert_eq!(
        current.token, "a-newer-token",
        "the rollback must leave the newer episode alone"
    );
    assert_eq!(current.phase, Phase::Prepared);
}

#[test]
fn of_two_children_with_one_tag_one_owns_the_episode() {
    let mut host = Host::new(Some(record(Phase::Prepared, 0, 1)));
    let episode = || Episode {
        token: TOKEN.to_string(),
        generation: 0,
    };
    // The first child dies after its claim and before its receipt.
    let mut turn: Turn<Claiming, Claimed> = Turn::Ask(claim(episode(), 1));
    for _ in 0..3 {
        let Turn::Ask(child) = turn else {
            panic!("a claim takes more than three answers");
        };
        let reply = host.answer(child.request());
        turn = child.step(reply);
    }
    assert_eq!(host.claims, vec![claim_file(TOKEN, 0)]);
    host.held = false;
    // The second finds the record as it was, and the claim taken.
    let claimed = drive(&mut host, Turn::Ask(claim(episode(), 2)));
    assert_eq!(
        claimed,
        Claimed::Superseded("another child claimed this episode first".to_string())
    );
    assert_eq!(host.record, Some(record(Phase::Prepared, 0, 1)));
}

// ── Claims ───────────────────────────────────────────────────────────────────

#[test]
fn a_child_owns_its_episode_once_started_is_durable() {
    let mut host = Host::new(Some(record(Phase::Prepared, 0, 1)));
    let session = run_here(boot_with(&mut host, &[], &tagged("shm-transport", TOKEN, "0")));
    assert_eq!(session.tier, 1);
    assert_eq!(session.profile_name(), "shm-transport");
    assert!(!session.frozen);
    assert_eq!(
        session.episode,
        Some(Episode {
            token: TOKEN.to_string(),
            generation: 0
        })
    );
    let mut started = record(Phase::Started, 0, 1);
    started.pid = Some(PID);
    assert_eq!(host.record, Some(started));
    assert_eq!(host.claims, vec![claim_file(TOKEN, 0)]);
    assert_eq!(host.asked, vec!["lock", "read", "claim", "write", "unlock"]);
}

#[test]
fn a_child_that_may_not_claim_writes_nothing() {
    let outcome = |found: Option<Record>| {
        let mut host = Host::new(found.clone());
        let episode = Episode {
            token: TOKEN.to_string(),
            generation: 0,
        };
        let claimed = drive(&mut host, Turn::Ask(claim(episode, PID)));
        assert_eq!(host.record, found);
        assert!(host.claims.is_empty());
        claimed
    };
    assert_eq!(outcome(None), Claimed::Untracked("no episode record".to_string()));
    assert_eq!(
        outcome(Some(record(Phase::Prepared, 1, 1))),
        Claimed::Superseded("this episode is no longer current".to_string())
    );
    assert_eq!(
        outcome(Some(record(Phase::Started, 0, 1))),
        Claimed::Superseded("this episode was already claimed".to_string())
    );
}

#[test]
fn a_claim_that_cannot_be_proven_is_no_claim() {
    let episode = || Episode {
        token: TOKEN.to_string(),
        generation: 0,
    };
    let mut host = Host::new(Some(record(Phase::Prepared, 0, 1)));
    host.locks = 0;
    assert_eq!(
        drive(&mut host, Turn::Ask(claim(episode(), PID))),
        Claimed::Untracked("the state lock was unavailable".to_string())
    );
    let mut host = Host::new(Some(record(Phase::Prepared, 0, 1)));
    host.writes = 0;
    assert_eq!(
        drive(&mut host, Turn::Ask(claim(episode(), PID))),
        Claimed::Untracked("the started receipt could not be persisted".to_string())
    );
    assert_eq!(host.record, Some(record(Phase::Prepared, 0, 1)));

    let mut turn = Turn::Ask(claim(episode(), PID));
    for reply in [
        Reply::Locked(Ok(())),
        Reply::Found(Some(record(Phase::Prepared, 0, 1))),
        Reply::Claimed(claim_outcome(ClaimAttempt::NoDirectory {
            path: "/c".to_string(),
            error: "denied".to_string(),
        })),
        Reply::Done,
    ] {
        let Turn::Ask(child) = turn else {
            panic!("the claim goes on");
        };
        turn = child.step(reply);
    }
    assert_eq!(
        turn,
        Turn::Done(Claimed::Untracked(
            "the claim could not be taken exclusively".to_string()
        ))
    );
}

#[test]
fn children_that_own_nothing_run_frozen_or_leave() {
    // An unknown profile.
    let mut host = Host::new(Some(record(Phase::Prepared, 0, 1)));
    let session = run_here(boot_with(&mut host, &[], &tagged("no-such-profile", TOKEN, "0")));
    assert!(session.frozen);
    assert_eq!(session.tier, 0);
    assert!(host.asked.is_empty());
    // No record to claim.
    let mut host = Host::new(None);
    let session = run_here(boot_with(&mut host, &[], &tagged("no-accel", TOKEN, "0")));
    assert!(session.frozen);
    assert_eq!(session.tier, 3);
    assert_eq!(session.episode, None);
    // Another episode.
    let mut host = Host::new(Some(record(Phase::Prepared, 1, 1)));
    assert_eq!(
        boot_with(&mut host, &[], &tagged("shm-transport", TOKEN, "0")),
        Boot::Superseded
    );
}

#[test]
fn a_child_turned_away_leaves_the_record_alone() {
    let env = tagged("shm-transport", TOKEN, "0");
    let turned_away = |found: Option<Record>, locks: usize, writes: usize, claimed: bool| {
        let mut host = Host::new(found.clone());
        host.locks = locks;
        host.writes = writes;
        if claimed {
            host.claims.push(claim_file(TOKEN, 0));
        }
        let boot = boot_with(&mut host, &[], &env);
        assert_eq!(host.record, found);
        assert!(host.spawned.is_empty() && !host.released);
        boot
    };
    let prepared = || Some(record(Phase::Prepared, 0, 1));
    for found in [
        Some(record(Phase::Started, 0, 1)),
        Some(record(Phase::Exhausted, 0, 4)),
        Some(record(Phase::Prepared, 1, 1)),
    ] {
        assert_eq!(turned_away(found, 9, 9, false), Boot::Superseded);
    }
    assert_eq!(turned_away(prepared(), 9, 9, true), Boot::Superseded);
    for boot in [
        turned_away(None, 9, 9, false),
        turned_away(prepared(), 0, 9, false),
        turned_away(prepared(), 9, 0, false),
    ] {
        let session = run_here(boot);
        assert!(session.frozen);
        assert_eq!(session.episode, None);
    }
}

// ── Acting on a record ───────────────────────────────────────────────────────

#[test]
fn an_unclaimed_attempt_is_retried_under_the_next_generation() {
    let mut host = Host::new(Some(record(Phase::Prepared, 0, 2)));
    host.claims.push(claim_file("old", 0));
    assert_eq!(boot(&mut host), Boot::HandedOff);
    assert_eq!(host.record, Some(record(Phase::Prepared, 1, 2)));
    // The retry must not erase its own first attempt's evidence.
    assert_eq!(host.claims, vec![claim_file("old", 0)]);
    assert_eq!(
        host.spawned,
        vec![(
            Package::Native,
            2,
            Tag {
                episode: Some(Episode {
                    token: TOKEN.to_string(),
                    generation: 1
                }),
                profile: "cpu-raster".to_string()
            }
        )]
    );
}

#[test]
fn a_spent_retry_moves_one_rung_down_with_a_fresh_token() {
    let mut host = Host::new(Some(record(Phase::Prepared, 1, 2)));
    host.claims.push(claim_file(TOKEN, 0));
    assert_eq!(boot(&mut host), Boot::HandedOff);
    let prepared = host.record.expect("the next attempt");
    assert_eq!((prepared.tier, prepared.generation), (3, 0));
    assert_eq!(prepared.profile, "no-accel");
    assert_ne!(prepared.token, TOKEN);
    // Superseded claims go once the new record is durable.
    assert!(host.claims.is_empty());
}

#[test]
fn the_last_rung_exhausts_the_ladder_for_good() {
    let mut host = Host::new(Some(record(Phase::Prepared, 1, 4)));
    let mut session = run_here(boot(&mut host));
    assert!(session.frozen);
    assert_eq!(session.tier, 4);
    let exhausted = host.record.clone().expect("the end of the ladder");
    assert_eq!(exhausted.phase, Phase::Exhausted);
    assert_eq!((exhausted.tier, exhausted.pid), (4, Some(PID)));
    assert!(host.spawned.is_empty());
    assert_eq!(crash(&mut host, &mut session), CrashResponse::Continue);
    // A later launch stops at once, and never leaves its baseline.
    let mut later = run_here(boot(&mut host));
    assert!(later.frozen);
    assert_eq!(later.tier, 0);
    assert_eq!(crash(&mut host, &mut later), CrashResponse::Continue);
    assert_eq!(host.record, Some(exhausted));
}

#[test]
fn a_record_of_another_version_is_discarded() {
    let mut old = record(Phase::Exhausted, 0, 4);
    old.version = "0.9.0".to_string();
    let mut host = Host::new(Some(old.clone()));
    let session = run_here(boot(&mut host));
    assert!(!session.frozen);
    assert_eq!(session.tier, 0);
    assert_eq!(host.record, None);
    // Without the lock it stays, and the launch is the baseline all the same.
    let mut host = Host::new(Some(old.clone()));
    host.locks = 0;
    let session = run_here(boot(&mut host));
    assert_eq!(session.tier, 0);
    assert_eq!(host.record, Some(old));
}

#[test]
fn a_duplicate_of_a_live_instance_changes_nothing() {
    let mut started = record(Phase::Started, 0, 1);
    started.pid = Some(7);
    let mut host = Host::new(Some(started.clone()));
    host.name = Name::Owned(":1.9", Some(7));
    let session = run_here(boot(&mut host));
    assert_eq!(session.tier, 0);
    assert_eq!(host.record, Some(started.clone()));
    assert_eq!(host.asked, vec!["read", "observe", "bus id"]);
    // Alive before it owns the name.
    let mut host = Host::new(Some(started.clone()));
    host.alive = true;
    run_here(boot(&mut host));
    assert_eq!(host.asked, vec!["read", "observe", "bus id", "probe"]);
    assert_eq!(host.record, Some(started.clone()));
    // Gone: one rung down.
    let mut host = Host::new(Some(started));
    assert_eq!(boot(&mut host), Boot::HandedOff);
    assert_eq!(host.record.expect("the next attempt").tier, 2);
}

#[test]
fn a_confirmed_tier_is_run_again() {
    let mut host = Host::new(Some(record(Phase::Confirmed, 0, 3)));
    assert_eq!(boot(&mut host), Boot::HandedOff);
    let prepared = host.record.expect("the prepared record");
    assert_eq!((prepared.phase, prepared.tier), (Phase::Prepared, 3));
    // The baseline needs no child.
    let mut host = Host::new(Some(record(Phase::Confirmed, 0, 0)));
    assert_eq!(run_here(boot(&mut host)).tier, 0);
    assert!(host.spawned.is_empty());
}

#[test]
fn a_rung_the_package_lacks_is_refused() {
    let mut host = Host::new(Some(record(Phase::Confirmed, 0, 4)));
    let session = run_here(boot_with(&mut host, &[], &env_from(&[("APPIMAGE", "/a")])));
    assert_eq!((session.tier, session.frozen), (0, true));
    let attempt = Attempt {
        dbus_name: "n".to_string(),
        package: Package::AppImage,
        version: VERSION.to_string(),
        tier: 4,
        release: Release::NothingHeld,
    };
    assert_eq!(
        hand_off(attempt, None),
        Turn::Done(Handoff::RefusedBeforeRelease(Refusal::NoTier(
            "appimage has no tier 4".to_string()
        )))
    );
}

// ── Handoffs ─────────────────────────────────────────────────────────────────

#[test]
fn a_live_handoff_keeps_its_order() {
    let mut host = Host::new(None);
    let mut session = run_here(boot(&mut host));
    host.asked.clear();
    assert_eq!(crash(&mut host, &mut session), CrashResponse::HandedOff);
    assert_eq!(
        host.asked,
        vec![
            "mint", "lock", "read", "write", "prune", "unlock", "binary", "release", "observe",
            "spawn"
        ]
    );
}

#[test]
fn a_missing_binary_is_found_out_before_the_release() {
    let before = record(Phase::Confirmed, 0, 0);
    let mut host = Host::new(Some(before.clone()));
    let mut session = run_here(boot(&mut host));
    host.binary = Err("deleted");
    assert_eq!(crash(&mut host, &mut session), CrashResponse::Continue);
    assert!(!host.released);
    assert_eq!(host.record, Some(before));
}

#[test]
fn a_name_that_is_not_free_strands_a_live_app() {
    for name in [Name::Owned(":1.2", None), Name::Unavailable("session bus: gone")] {
        let mut host = Host::new(None);
        let mut session = run_here(boot(&mut host));
        host.name = name;
        assert_eq!(crash(&mut host, &mut session), CrashResponse::Stranded);
        assert!(host.spawned.is_empty());
        assert_eq!(host.record, None);
    }
}

fn attempt_at_boot(host: &mut Host) -> Handoff {
    let attempt = Attempt {
        dbus_name: "xyz.buzz.app.SingleInstance".to_string(),
        package: Package::Native,
        version: VERSION.to_string(),
        tier: 1,
        release: Release::NothingHeld,
    };
    let episode = Episode {
        token: "new".to_string(),
        generation: 0,
    };
    drive(host, hand_off(attempt, Some(episode)))
}

#[test]
fn each_refusal_is_reported_as_what_it_is() {
    let mut host = Host::new(None);
    host.locks = 0;
    assert_eq!(
        attempt_at_boot(&mut host),
        Handoff::RefusedBeforeRelease(Refusal::StateNotDurable("lock busy".to_string()))
    );
    let mut host = Host::new(None);
    host.writes = 0;
    assert_eq!(
        attempt_at_boot(&mut host),
        Handoff::RefusedBeforeRelease(Refusal::StateNotDurable("disk full".to_string()))
    );
    let mut host = Host::new(None);
    host.binary = Err("gone");
    assert_eq!(
        attempt_at_boot(&mut host),
        Handoff::RefusedBeforeRelease(Refusal::NoBinary("gone".to_string()))
    );
    let mut host = Host::new(None);
    host.name = Name::Owned(":1.3", Some(5));
    assert_eq!(
        attempt_at_boot(&mut host),
        Handoff::RefusedBeforeRelease(Refusal::NameNotFree(
            "owned by :1.3 (pid Some(5))".to_string()
        ))
    );
    let mut host = Host::refusing(None);
    assert_eq!(
        attempt_at_boot(&mut host),
        Handoff::RefusedBeforeRelease(Refusal::SpawnFailed("no child".to_string()))
    );
    assert_eq!(host.record, None);
    assert_eq!(attempt_at_boot(&mut Host::new(None)), Handoff::Launched);
}

#[test]
fn a_rollback_without_the_lock_gives_up() {
    let mut host = Host::refusing(Some(record(Phase::Confirmed, 0, 0)));
    host.locks = 1;
    assert_eq!(
        attempt_at_boot(&mut host),
        Handoff::RefusedBeforeRelease(Refusal::SpawnFailed("no child".to_string()))
    );
    assert_eq!(host.record.expect("the prepared record").token, "new");
}

#[test]
fn a_reply_that_answers_nothing_is_asked_for_again() {
    let turn = reconcile(Ok(()), IDENTIFIER, VERSION, &Vec::new(), &env_from(&[]), PID);
    let Turn::Ask(task) = turn else {
        panic!("an untagged launch reads the record");
    };
    assert_eq!(task.request(), Request::Read);
    let Turn::Ask(task) = task.step(Reply::Alive(true)) else {
        panic!("the record has not been read");
    };
    assert_eq!(task.request(), Request::Read);
    assert!(matches!(task, Booting::Read(_)));
}

// ── Receipts ─────────────────────────────────────────────────────────────────

fn owner(host: &mut Host) -> Session {
    host.record = Some(record(Phase::Prepared, 0, 1));
    run_here(boot_with(host, &[], &tagged("shm-transport", TOKEN, "0")))
}

#[test]
fn receipts_carry_the_identity_of_the_connection() {
    let mut host = Host::new(None);
    let session = owner(&mut host);
    host.name = Name::Owned(":1.12", Some(PID));
    note(&mut host, session.note_owned());
    let mut expected = record(Phase::Owned, 0, 1);
    expected.pid = Some(PID);
    expected.unique_name = Some(":1.12".to_string());
    expected.bus_id = Some("bus-1".to_string());
    assert_eq!(host.record, Some(expected));
    // Not owning the name does not block the receipt.
    host.name = Name::Free;
    note(&mut host, session.note_confirmed());
    let mut expected = record(Phase::Confirmed, 0, 1);
    expected.pid = Some(PID);
    assert_eq!(host.record, Some(expected));
}

#[test]
fn receipts_never_go_back_and_never_recreate() {
    let mut host = Host::new(None);
    let session = owner(&mut host);
    note(&mut host, session.note_confirmed());
    let confirmed = host.record.clone();
    note(&mut host, session.note_owned());
    assert_eq!(host.record, confirmed);
    host.record = None;
    note(&mut host, session.note_confirmed());
    assert_eq!(host.record, None);
    host.record = Some(record(Phase::Exhausted, 0, 4));
    note(&mut host, session.note_confirmed());
    assert_eq!(host.record, Some(record(Phase::Exhausted, 0, 4)));
    host.record = Some(record(Phase::Started, 0, 1));
    host.locks = 0;
    note(&mut host, session.note_confirmed());
    assert_eq!(host.record, Some(record(Phase::Started, 0, 1)));
}

#[test]
fn a_crash_is_never_recorded_as_a_clean_start() {
    let mut host = Host::new(None);
    let mut session = owner(&mut host);
    host.binary = Err("gone");
    assert_eq!(crash(&mut host, &mut session), CrashResponse::Continue);
    assert_eq!(session.note_confirmed(), Turn::Done(()));
    assert_eq!(host.record.expect("the record").phase, Phase::Started);
}

#[test]
fn late_and_ordinary_endings_are_not_crashes() {
    let mut host = Host::new(None);
    let mut session = owner(&mut host);
    for (termination, since_launch) in [
        (Termination::Other, 0),
        (Termination::Crashed, 5_000_000_001),
    ] {
        assert_eq!(
            session.on_web_process_terminated(termination, since_launch),
            Turn::Done(CrashResponse::Continue)
        );
    }
    assert!(!session.crashed);
    assert!(matches!(
        session.on_web_process_terminated(Termination::Crashed, 5_000_000_000),
        Turn::Ask(Crashing::Mint { .. })
    ));
    assert!(session.crashed);
    assert_eq!(session.until_confirmation(0), 5_000_000_000);
    assert_eq!(session.until_confirmation(4_999_999_999), 1);
    assert_eq!(session.until_confirmation(5_000_000_000), 0);
    assert_eq!(session.until_confirmation(u128::MAX), 0);
}

#[test]
fn an_owner_that_exhausts_the_ladder_says_so_in_its_own_episode() {
    let mut host = Host::new(Some(record(Phase::Prepared, 0, 4)));
    let mut session = run_here(boot_with(&mut host, &[], &tagged("x11-fallback", TOKEN, "0")));
    assert_eq!(crash(&mut host, &mut session), CrashResponse::Continue);
    let mut expected = record(Phase::Exhausted, 0, 4);
    expected.pid = Some(PID);
    assert_eq!(host.record, Some(expected));
    assert!(!host.released);
}

#[test]
fn the_end_of_the_ladder_is_durable() {
    let ended = |host: &Host, tier: usize, profile: &str| {
        let record = host.record.as_ref().expect("the end of the ladder");
        assert_eq!(record.phase, Phase::Exhausted);
        assert_eq!((record.pid, record.tier), (Some(PID), tier));
        assert_eq!((&*record.profile, &*record.version), (profile, VERSION));
        assert_eq!((&record.unique_name, &record.bus_id), (&None, &None));
    };
    // A crash on the last rung, in a launch without an episode.
    let mut host = Host::new(None);
    let mut session = run_here(boot(&mut host));
    session.tier = 4;
    assert_eq!(crash(&mut host, &mut session), CrashResponse::Continue);
    ended(&host, 4, "x11-fallback");
    // A last attempt that failed, found by the next launch.
    let env = env_from(&[("APPIMAGE", "/a")]);
    for (phase, generation) in [(Phase::Started, 0), (Phase::Owned, 1), (Phase::Prepared, 1)] {
        let mut host = Host::new(Some(record(phase, generation, 3)));
        let session = run_here(boot_with(&mut host, &[], &env));
        assert!(session.frozen);
        assert_eq!(session.tier, 3);
        ended(&host, 3, "no-accel");
    }
    // One that is still under way is left alone.
    let mut started = record(Phase::Started, 0, 3);
    started.pid = Some(7);
    let mut host = Host::new(Some(started.clone()));
    host.alive = true;
    let session = run_here(boot_with(&mut host, &[], &env));
    assert_eq!(session.tier, 0);
    assert_eq!(host.record, Some(started));
}

// ── The whole ladder ─────────────────────────────────────────────────────────

#[test]
fn a_descent_takes_at_most_two_attempts_for_each_rung() {
    // Every child dies before it claims, so each rung costs its attempt and its
    // retry.
    for (package, env) in [
        (Package::Native, env_from(&[])),
        (Package::AppImage, env_from(&[("APPIMAGE", "/a")])),
    ] {
        let mut host = Host::new(None);
        let mut session = run_here(boot_with(&mut host, &[], &env));
        assert_eq!(crash(&mut host, &mut session), CrashResponse::HandedOff);
        host.released = false;
        let mut boots = 0;
        while boot_with(&mut host, &[], &env) == Boot::HandedOff {
            boots += 1;
            assert!(boots < 20, "the ladder ends");
        }
        let rungs = package.tiers().len();
        let tiers: Vec<usize> = host.spawned.iter().map(|(_, tier, _)| *tier).collect();
        let expected: Vec<usize> = (1..rungs).flat_map(|tier| [tier, tier]).collect();
        assert_eq!(tiers, expected);
        assert!(tiers.len() <= 2 * rungs);
        assert_eq!(host.record.expect("the end").phase, Phase::Exhausted);
    }
}

/// The environment of the child that `host` spawned last.
fn child_env(host: &Host, parent: &[(&str, &str)]) -> Env {
    let (package, tier, tag) = host.spawned.last().expect("a child");
    let mut vars: Vec<(String, String)> = parent
        .iter()
        .map(|(key, value)| (key.to_string(), value.to_string()))
        .collect();
    for change in exact_env(*package, &package.tier(*tier).expect("a rung"), tag) {
        match change {
            EnvChange::Remove(key) => vars.retain(|(name, _)| *name != key),
            EnvChange::Assign(key, value) => vars.push((key, value)),
        }
    }
    let mut env = Env::new();
    for (key, value) in vars {
        env.set(key, value);
    }
    env
}

#[test]
fn a_child_takes_over_what_its_parent_prepared() {
    let mut host = Host::new(None);
    let mut parent = run_here(boot(&mut host));
    assert_eq!(crash(&mut host, &mut parent), CrashResponse::HandedOff);
    let env = child_env(&host, &[("PATH", "/bin")]);
    let child = run_here(boot_with(&mut host, &[], &env));
    assert_eq!((child.tier, child.frozen), (1, false));
    assert_eq!(child.episode, host.spawned[0].2.episode);
    let started = host.record.clone().expect("the receipt");
    assert_eq!((started.phase, started.pid), (Phase::Started, Some(PID)));
    // It starts cleanly, and the next launch runs the same tier again.
    note(&mut host, child.note_owned());
    note(&mut host, child.note_confirmed());
    assert_eq!(boot(&mut host), Boot::HandedOff);
    assert_eq!(host.spawned[1].1, 1);
}

#[test]
fn a_forced_child_runs_the_terminal_tier() {
    let mut host = Host::new(Some(record(Phase::Exhausted, 0, 4)));
    let parent = boot_with(&mut host, &[cli::SAFE_RENDERING], &env_from(&[]));
    assert_eq!(parent, Boot::HandedOff);
    let env = child_env(&host, &[]);
    // The flag travels with the arguments, and the tag outranks it.
    let child = run_here(boot_with(&mut host, &[cli::SAFE_RENDERING], &env));
    assert_eq!((child.tier, child.frozen), (4, true));
    assert_eq!(child.episode, None);
    assert_eq!(host.record, Some(record(Phase::Exhausted, 0, 4)));
}

#[test]
fn without_a_flag_no_boot_is_fatal() {
    for found in [
        None,
        Some(record(Phase::Prepared, 0, 2)),
        Some(record(Phase::Confirmed, 0, 4)),
        Some(record(Phase::Started, 0, 9)),
    ] {
        for (locks, writes, name) in [
            (0, 9, Name::Free),
            (1, 0, Name::Free),
            (1, 1, Name::Unavailable("gone")),
            (9, 1, Name::Owned(":1.1", None)),
        ] {
            let mut host = Host::refusing(found.clone());
            host.locks = locks;
            host.writes = writes;
            host.name = name;
            assert!(matches!(boot(&mut host), Boot::Run(_)));
            assert!(!host.released);
        }
    }
}

#[test]
fn a_tagged_launch_does_not_mistake_its_profile_for_configuration() {
    let env = env_from(&[
        ("WEBKIT_DISABLE_DMABUF_RENDERER", "1"),
        ("GDK_BACKEND", "x11"),
        (PROFILE, "x11-fallback"),
        (FORCED, "1"),
    ]);
    let mut host = Host::new(None);
    let session = run_here(boot_with(&mut host, &[cli::SAFE_RENDERING], &env));
    assert_eq!((session.tier, session.frozen), (4, true));
}

// ── Asking after a child ─────────────────────────────────────────────────────

#[test]
fn a_child_is_asked_after_only_where_it_matters() {
    let with_pid = |phase: Phase| {
        let mut record = record(phase, 0, 0);
        record.pid = Some(42);
        record
    };
    let asked = |record: Record, name: Name| {
        let mut host = Host::new(Some(record));
        host.name = name;
        boot(&mut host);
        host.asked.contains(&"probe")
    };
    assert!(asked(with_pid(Phase::Started), Name::Free));
    assert!(!asked(with_pid(Phase::Started), Name::Owned(":1.1", Some(42))));
    assert!(!asked(with_pid(Phase::Started), Name::Unavailable("gone")));
    assert!(!asked(record(Phase::Started, 0, 0), Name::Free));
    for phase in [
        Phase::Prepared,
        Phase::Owned,
        Phase::Confirmed,
        Phase::Exhausted,
    ] {
        assert!(!asked(with_pid(phase), Name::Free));
    }
    let mut old = with_pid(Phase::Started);
    old.version = "0.9.0".to_string();
    assert!(!asked(old, Name::Free));
}

#[test]
fn a_spent_ladder_is_left_as_it_is() {
    let mut spent = record(Phase::Exhausted, 0, 4);
    spent.pid = Some(42);
    let mut host = Host::new(Some(spent.clone()));
    let mut session = run_here(boot(&mut host));
    assert_eq!(host.asked, vec!["read", "observe", "bus id"]);
    for _ in 0..3 {
        assert_eq!(crash(&mut host, &mut session), CrashResponse::Continue);
    }
    assert_eq!(host.record, Some(spent));
    assert!(host.spawned.is_empty() && !host.released);
    assert_eq!(host.asked.len(), 3);
}

#[test]
fn a_launched_child_finds_the_record_of_its_tag() {
    let mut host = Host::new(Some(record(Phase::Prepared, 0, 2)));
    assert_eq!(boot(&mut host), Boot::HandedOff);
    let (_, tier, tag) = &host.spawned[0];
    let left = host.record.as_ref().expect("a record");
    let episode = tag.episode.as_ref().expect("an episode");
    assert_eq!(left.phase, Phase::Prepared);
    assert_eq!((&left.token, left.generation), (&episode.token, episode.generation));
    assert_eq!((left.tier, &left.profile), (*tier, &tag.profile));
}

// ── What is told ─────────────────────────────────────────────────────────────

#[test]
fn a_decision_is_told_with_its_record() {
    let mut host = Host::refusing(Some(record(Phase::Prepared, 0, 2)));
    boot(&mut host);
    assert_eq!(
        host.log,
        vec![
            "found Prepared record (token=a-token gen=0 tier=2 profile=cpu-raster) → \
             RetrySameTier { reason: \"prepared attempt was never claimed\", tier: 2 }",
            "staying at the launched profile — spawn failed: no child",
        ]
    );
    let decided = |found: Record| {
        let mut host = Host::new(Some(found));
        boot(&mut host);
        host.log.remove(0).split(" → ").nth(1).expect("a decision").to_string()
    };
    let mut started = record(Phase::Started, 0, 1);
    assert_eq!(
        decided(started.clone()),
        "AdvanceOrStop { reason: \"recovery child is gone before acquiring the name\", tier: 1 }"
    );
    assert_eq!(decided(record(Phase::Confirmed, 0, 3)), "ReuseProfile { tier: 3 }");
    started.version = "0.9.0".to_string();
    assert_eq!(
        decided(started.clone()),
        "DiscardAndBaseline { reason: \"app version changed since the record was written\" }"
    );
    started.version = VERSION.to_string();
    started.pid = Some(7);
    let mut host = Host::new(Some(started));
    host.alive = true;
    boot(&mut host);
    assert!(host.log[0].ends_with(
        "Defer(\"recovery child is alive in the pre-ownership interval\")"
    ));
    assert_eq!(host.log.len(), 1);
}

#[test]
fn the_way_to_the_safest_profile_is_told() {
    let mut host = Host::new(Some(record(Phase::Prepared, 1, 4)));
    boot(&mut host);
    assert_eq!(
        host.log[1],
        "ladder exhausted on native at tier 4 (x11-fallback); relaunch with --safe-rendering to \
         force the safest profile"
    );
    host.log.clear();
    boot(&mut host);
    assert!(host.log[0].ends_with("StopExhausted { tier: 4 }"));
    assert_eq!(
        host.log[1],
        "the ladder was already exhausted at tier 4 on native; relaunch with --safe-rendering to \
         force the safest profile"
    );
    let mut host = Host::new(Some(record(Phase::Prepared, 1, 4)));
    host.locks = 0;
    boot(&mut host);
    assert_eq!(
        host.log[1],
        "could not record the exhausted ladder — the state lock was busy"
    );
}

#[test]
fn refused_relaunches_are_told() {
    let mut host = Host::refusing(None);
    let mut session = run_here(boot(&mut host));
    crash(&mut host, &mut session);
    assert_eq!(
        host.log,
        vec![
            "relaunch refused after releasing the single-instance name (spawn failed: no child); \
             exiting rather than running without it"
        ]
    );
    let mut host = Host::new(None);
    let mut session = run_here(boot(&mut host));
    host.binary = Err("deleted");
    crash(&mut host, &mut session);
    assert_eq!(host.log, vec!["relaunch refused: cannot locate the app binary: deleted"]);
    let mut host = Host::new(None);
    let mut session = run_here(boot(&mut host));
    host.writes = 0;
    crash(&mut host, &mut session);
    assert_eq!(host.log, vec!["relaunch refused: episode record not durable: disk full"]);
    let mut host = Host::new(Some(record(Phase::Confirmed, 0, 2)));
    host.name = Name::Owned(":1.2", None);
    boot(&mut host);
    assert_eq!(
        host.log[1],
        "staying at the launched profile — single-instance name not free: owned by :1.2 (pid None)"
    );
    for phase in [Phase::Prepared, Phase::Confirmed] {
        let mut host = Host::new(Some(record(phase, 0, 9)));
        boot(&mut host);
        assert_eq!(
            host.log[1],
            "staying at the launched profile — no such renderer tier: native has no tier 9"
        );
    }
}

#[test]
fn rollbacks_that_do_not_happen_are_told() {
    let mut host = Host::refusing(None);
    host.locks = 1;
    attempt_at_boot(&mut host);
    // The refusal is told last, when the handoff ends.
    let refusal = "staying at the launched profile — spawn failed: no child";
    assert_eq!(
        host.log,
        vec![
            "could not roll back the prepared record — the state lock was busy",
            refusal,
        ]
    );
    let mut host = Host::refusing(None);
    host.competitor = Some(record(Phase::Prepared, 0, 2));
    attempt_at_boot(&mut host);
    assert_eq!(
        host.log,
        vec!["not rolling back — another episode is current now", refusal]
    );
    // The record of before the attempt cannot be put back.
    let mut host = Host::refusing(Some(record(Phase::Confirmed, 0, 2)));
    host.writes = 1;
    attempt_at_boot(&mut host);
    assert_eq!(
        host.log,
        vec!["failed to persist Confirmed: disk full", refusal]
    );
    assert_eq!(host.record.expect("the attempt").phase, Phase::Prepared);
    let mut host = Host::refusing(None);
    host.locks = 1;
    let mut session = run_here(boot(&mut host));
    crash(&mut host, &mut session);
    assert_eq!(
        host.log,
        vec![
            "could not roll back the prepared record — the state lock was busy",
            "relaunch refused after releasing the single-instance name (spawn failed: no child); \
             exiting rather than running without it",
        ]
    );
    let mut host = Host::new(None);
    host.locks = 0;
    attempt_at_boot(&mut host);
    assert_eq!(
        host.log,
        vec!["staying at the launched profile — episode record not durable: lock busy"]
    );
}

#[test]
fn children_say_why_they_are_not_tracked() {
    let log = |found: Option<Record>, locks: usize| {
        let mut host = Host::new(found);
        host.locks = locks;
        boot_with(&mut host, &[], &tagged("shm-transport", TOKEN, "0"));
        host.log
    };
    assert_eq!(
        log(Some(record(Phase::Started, 0, 1)), 9),
        vec!["recovery child is not the episode owner — this episode was already claimed; exiting"]
    );
    assert_eq!(log(None, 9), vec!["not tracking this recovery launch — no episode record"]);
    assert_eq!(
        log(None, 0),
        vec!["not tracking this recovery launch — the state lock was unavailable"]
    );
    assert!(log(Some(record(Phase::Prepared, 0, 1)), 9).is_empty());
    let child = claim(
        Episode {
            token: TOKEN.to_string(),
            generation: 0,
        },
        PID,
    );
    let Turn::Ask(child) = child.step(Reply::Locked(Ok(()))) else {
        panic!("the record is read next");
    };
    let Turn::Ask(child) = child.step(Reply::Found(Some(record(Phase::Prepared, 0, 1)))) else {
        panic!("the claim is taken next");
    };
    let failed = Reply::Claimed(claim_outcome(ClaimAttempt::Refused {
        path: "/c".to_string(),
        error: "denied".to_string(),
    }));
    let remark = child.remark(&failed).expect("a remark");
    assert_eq!(remark.message(), "claim failed: claim /c: denied");
}

#[test]
fn receipts_say_what_became_of_them() {
    let mut host = Host::new(None);
    let session = owner(&mut host);
    note(&mut host, session.note_owned());
    note(&mut host, session.note_owned());
    host.locks = 0;
    note(&mut host, session.note_confirmed());
    assert_eq!(
        host.log,
        vec![
            "writing Owned without an owner identity",
            "skipping the Owned receipt — this episode is no longer current",
            "skipping the Confirmed receipt — the state lock was unavailable",
        ]
    );
    host.locks = 9;
    host.log.clear();
    host.name = Name::Owned(":1.3", None);
    note(&mut host, session.note_confirmed());
    assert!(host.log.is_empty());
}

#[test]
fn writes_that_fail_are_told() {
    // A receipt.
    let mut host = Host::new(None);
    let session = owner(&mut host);
    host.name = Name::Owned(":1.3", None);
    host.writes = 0;
    note(&mut host, session.note_owned());
    assert_eq!(host.log, vec!["failed to persist Owned: disk full"]);
    // The end of the ladder, which is told all the same.
    let mut host = Host::new(Some(record(Phase::Prepared, 1, 4)));
    host.writes = 0;
    boot(&mut host);
    assert_eq!(
        host.log[1..],
        [
            "failed to persist Exhausted: disk full",
            "ladder exhausted on native at tier 4 (x11-fallback); relaunch with --safe-rendering \
             to force the safest profile",
        ]
    );
    assert_eq!(host.record, Some(record(Phase::Prepared, 1, 4)));
    // A child's first receipt.
    let mut host = Host::new(Some(record(Phase::Prepared, 0, 1)));
    host.writes = 0;
    boot_with(&mut host, &[], &tagged("shm-transport", TOKEN, "0"));
    assert_eq!(
        host.log,
        vec![
            "failed to persist started: disk full",
            "not tracking this recovery launch — the started receipt could not be persisted",
        ]
    );
}

#[test]
fn terminations_that_are_not_acted_on_are_told() {
    let mut host = Host::new(None);
    let mut session = owner(&mut host);
    let told = |session: &Session, termination: Termination| {
        session
            .termination_remark(termination, 7, "7ns")
            .map(|remark| remark.message())
    };
    assert_eq!(
        told(&session, Termination::Other).expect("a remark"),
        "web process ended (Other) 7ns after launch at tier 1 (shm-transport) — not ladder-eligible"
    );
    let late = session
        .termination_remark(Termination::Crashed, 6_000_000_000, "6s")
        .expect("a remark");
    assert_eq!(
        late.message(),
        "web process ended (Crashed) 6s after launch at tier 1 (shm-transport) — not \
         ladder-eligible"
    );
    assert_eq!(told(&session, Termination::Crashed), None);
    session.frozen = true;
    assert_eq!(
        told(&session, Termination::Crashed).expect("a remark"),
        "not advancing — this launch is running a forced profile"
    );
    session.crashed = true;
    assert_eq!(
        told(&session, Termination::Crashed).expect("a remark"),
        "a ladder-eligible crash was already handled; not advancing again"
    );
}

#[test]
fn a_launch_says_how_it_begins() {
    let told = |flags: &[&str], env: &Env| {
        let args = flags.iter().map(|flag| Some(flag.to_string())).collect();
        boot_remark(&Ok(()), &args, env).map(|remark| remark.message())
    };
    assert_eq!(told(&[], &env_from(&[])), None);
    assert_eq!(
        told(&[cli::SAFE_RENDERING], &env_from(&[("APPIMAGE", "/a")])).expect("a remark"),
        "--safe-rendering — forcing no-accel for this launch only"
    );
    assert_eq!(told(&[cli::SAFE_RENDERING], &env_from(&[("GDK_BACKEND", "x11")])), None);
    assert_eq!(
        told(&[cli::SAFE_RENDERING, cli::RESET_RENDERING_MODE], &env_from(&[])),
        None
    );
    assert_eq!(
        told(&[], &tagged("sparkles", TOKEN, "0")).expect("a remark"),
        "recovery tag names an unknown profile (sparkles); not tracking this launch"
    );
    assert_eq!(told(&[], &tagged("no-accel", TOKEN, "0")), None);
    let args = vec![Some(cli::SAFE_RENDERING.to_string())];
    assert_eq!(boot_remark(&Err("no dir".to_string()), &args, &env_from(&[])), None);
}
