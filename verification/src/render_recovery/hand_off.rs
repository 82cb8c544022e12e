//! Handing the app over to a child that carries another tier.
//!
//! The order is the whole mechanism. The record must be durable before the child
//! exists, because the child claims it as its first action and would otherwise
//! find nothing. The name must be released before the probe, because a child
//! that fails to take the name forwards its argv and exits 0, indistinguishable
//! from a successful handoff. Every preflight that can fail runs before the
//! release, and a refusal puts the record back.

use super::episode::{is_current, prepare, prepared, profile_name, same_episode, Episode};
use super::launcher::{name_refusal, probe_name, Handoff, Refusal, Tag};
use super::profiles::Package;
use super::protocol::{Reply, Request, Turn};
use super::state::Record;
use crate::text::{decimal, numeral, opt};
use vstd::prelude::*;

verus! {

/// What this process must give up before a child may take the single-instance
/// name, and, decisively, whether giving it up can be undone.
///
/// At boot no name is held yet, so a refusal is harmless, while a live app has
/// to destroy its single-instance plugin and can never re-register it. Naming
/// the distinction here is what stops a refusal from being mistaken for a
/// recoverable one.
#[derive(Clone, Copy, Debug, PartialEq, Eq, Structural)]
pub enum Release {
    /// Boot, before the app exists. Nothing is held, so nothing is released.
    NothingHeld,
    /// A live app holding the name. Releasing it destroys the single-instance
    /// plugin; there is no way back.
    SingleInstanceName,
}

/// What is to be launched, and from where.
#[derive(Debug, PartialEq, Eq)]
pub struct Attempt<S = String> {
    pub dbus_name: S,
    pub package: Package,
    pub version: S,
    pub tier: usize,
    pub release: Release,
}

impl View for Attempt<String> {
    type V = Attempt<Seq<char>>;

    open spec fn view(&self) -> Attempt<Seq<char>> {
        Attempt {
            dbus_name: self.dbus_name@,
            package: self.package,
            version: self.version@,
            tier: self.tier,
            release: self.release,
        }
    }
}

/// An episode that has been prepared, and the record it was written over.
#[derive(Debug, PartialEq, Eq)]
pub struct Prepared<S = String> {
    pub episode: Episode<S>,
    pub previous: Option<Record<S>>,
}

impl View for Prepared<String> {
    type V = Prepared<Seq<char>>;

    open spec fn view(&self) -> Prepared<Seq<char>> {
        Prepared { episode: self.episode@, previous: opt(self.previous) }
    }
}

/// Where a handoff stands. From `Binary` on, a handoff without a prepared
/// episode is a forced one: it persists nothing, so it has nothing to put back.
#[derive(Debug, PartialEq, Eq)]
pub enum Stage<S = String> {
    Lock(Episode<S>),
    Read(Episode<S>),
    Write(Prepared<S>),
    /// The record could not be made durable; only the lock is left to give back.
    Abandon(S),
    Prune(Prepared<S>),
    Unlock(Prepared<S>),
    Binary(Option<Prepared<S>>),
    Release(Option<Prepared<S>>),
    Observe(Option<Prepared<S>>),
    Spawn(Option<Prepared<S>>),
    /// No child exists: the prepared record has to go.
    Relock(Prepared<S>, Handoff<S>),
    Reread(Prepared<S>, Handoff<S>),
    Restore(Prepared<S>, Handoff<S>),
    Reunlock(Handoff<S>),
}

impl View for Stage<String> {
    type V = Stage<Seq<char>>;

    open spec fn view(&self) -> Stage<Seq<char>> {
        match self {
            Stage::Lock(episode) => Stage::Lock(episode@),
            Stage::Read(episode) => Stage::Read(episode@),
            Stage::Write(prepared) => Stage::Write(prepared@),
            Stage::Abandon(error) => Stage::Abandon(error@),
            Stage::Prune(prepared) => Stage::Prune(prepared@),
            Stage::Unlock(prepared) => Stage::Unlock(prepared@),
            Stage::Binary(prepared) => Stage::Binary(opt(*prepared)),
            Stage::Release(prepared) => Stage::Release(opt(*prepared)),
            Stage::Observe(prepared) => Stage::Observe(opt(*prepared)),
            Stage::Spawn(prepared) => Stage::Spawn(opt(*prepared)),
            Stage::Relock(prepared, handoff) => Stage::Relock(prepared@, handoff@),
            Stage::Reread(prepared, handoff) => Stage::Reread(prepared@, handoff@),
            Stage::Restore(prepared, handoff) => Stage::Restore(prepared@, handoff@),
            Stage::Reunlock(handoff) => Stage::Reunlock(handoff@),
        }
    }
}

/// A handoff under way.
#[derive(Debug, PartialEq, Eq)]
pub struct HandOff<S = String> {
    pub attempt: Attempt<S>,
    pub stage: Stage<S>,
}

impl View for HandOff<String> {
    type V = HandOff<Seq<char>>;

    open spec fn view(&self) -> HandOff<Seq<char>> {
        HandOff { attempt: self.attempt@, stage: self.stage@ }
    }
}

/// The refusal of a tier that the package's ladder does not have.
pub open spec fn missing_tier(package: Package, tier: usize) -> Refusal<Seq<char>> {
    Refusal::NoTier(package.label_text() + " has no tier "@ + numeral(tier as nat))
}

/// The refusal of a tier that the package's ladder does not have.
pub fn no_such_tier(package: Package, tier: usize) -> (refusal: Refusal)
    ensures
        refusal@ == missing_tier(package, tier),
{
    Refusal::NoTier(
        package.label().to_owned().concat(" has no tier ").concat(decimal(tier).as_str()),
    )
}

impl Attempt<Seq<char>> {
    /// The record that must be durable before a child for `episode` exists.
    pub open spec fn record(self, episode: Episode<Seq<char>>) -> Record<Seq<char>> {
        prepared(episode, self.package, self.tier, self.version)
    }

    /// The tag of a child for `episode`, or of a forced child.
    pub open spec fn tag(self, episode: Option<Episode<Seq<char>>>) -> Tag<Seq<char>> {
        Tag { episode, profile: self.package.profile(self.tier as int) }
    }

    /// Why a tier past the end of the ladder is refused.
    pub open spec fn no_tier(self) -> Handoff<Seq<char>> {
        Handoff::RefusedBeforeRelease(missing_tier(self.package, self.tier))
    }

    /// A refusal from the spawn edge: which side of the release it falls on is
    /// decided by whether there was anything to release.
    pub open spec fn turned_down(self, refusal: Refusal<Seq<char>>) -> Handoff<Seq<char>> {
        match self.release {
            Release::NothingHeld => Handoff::RefusedBeforeRelease(refusal),
            Release::SingleInstanceName => Handoff::RefusedAfterRelease(refusal),
        }
    }
}

/// The episode of a prepared attempt.
pub open spec fn episode_of(prepared: Option<Prepared<Seq<char>>>) -> Option<Episode<Seq<char>>> {
    match prepared {
        Some(prepared) => Some(prepared.episode),
        None => None,
    }
}

/// The first turn of a handoff: for an episode, or without one.
pub open spec fn handed(
    attempt: Attempt<Seq<char>>,
    episode: Option<Episode<Seq<char>>>,
) -> Turn<HandOff<Seq<char>>, Handoff<Seq<char>>> {
    if attempt.tier >= attempt.package.rungs() {
        Turn::Done(attempt.no_tier())
    } else {
        match episode {
            Some(episode) => Turn::Ask(HandOff { attempt, stage: Stage::Lock(episode) }),
            None => Turn::Ask(HandOff { attempt, stage: Stage::Binary(None) }),
        }
    }
}

impl HandOff<Seq<char>> {
    /// The request this handoff waits with.
    pub open spec fn asks(self) -> Request<Seq<char>> {
        match self.stage {
            Stage::Lock(_) => Request::Lock,
            Stage::Read(_) => Request::Read,
            Stage::Write(prepared) => Request::Write(self.attempt.record(prepared.episode)),
            Stage::Abandon(_) => Request::Unlock,
            Stage::Prune(prepared) => Request::PruneClaims { token: prepared.episode.token },
            Stage::Unlock(_) => Request::Unlock,
            Stage::Binary(_) => Request::Binary,
            Stage::Release(_) => Request::Release,
            Stage::Observe(_) => Request::Observe { name: self.attempt.dbus_name },
            Stage::Spawn(prepared) => Request::Spawn {
                package: self.attempt.package,
                tier: self.attempt.tier,
                tag: self.attempt.tag(episode_of(prepared)),
            },
            Stage::Relock(_, _) => Request::Lock,
            Stage::Reread(_, _) => Request::Read,
            Stage::Restore(prepared, _) => match prepared.previous {
                Some(record) => Request::Write(record),
                None => Request::Clear,
            },
            Stage::Reunlock(_) => Request::Unlock,
        }
    }

    /// The handoff at another stage.
    pub open spec fn at(self, stage: Stage<Seq<char>>) -> Turn<
        HandOff<Seq<char>>,
        Handoff<Seq<char>>,
    > {
        Turn::Ask(HandOff { stage, ..self })
    }

    /// The handoff after no child came of it: what was prepared is rolled back.
    pub open spec fn undone(
        self,
        prepared: Option<Prepared<Seq<char>>>,
        handoff: Handoff<Seq<char>>,
    ) -> Turn<HandOff<Seq<char>>, Handoff<Seq<char>>> {
        match prepared {
            Some(prepared) => self.at(Stage::Relock(prepared, handoff)),
            None => Turn::Done(handoff),
        }
    }

    /// The handoff after a reply.
    pub open spec fn next(self, reply: Reply<Seq<char>>) -> Turn<
        HandOff<Seq<char>>,
        Handoff<Seq<char>>,
    > {
        match (self.stage, reply) {
            (Stage::Lock(episode), Reply::Locked(Ok(()))) => self.at(Stage::Read(episode)),
            (Stage::Lock(_), Reply::Locked(Err(error))) => Turn::Done(
                Handoff::RefusedBeforeRelease(Refusal::StateNotDurable(error)),
            ),
            (Stage::Read(episode), Reply::Found(previous)) => self.at(
                Stage::Write(Prepared { episode, previous }),
            ),
            // Pruned only now that the new record is durable. Pruning first would,
            // on a failed record write, leave the old record current with its
            // claim evidence already gone.
            (Stage::Write(prepared), Reply::Written(Ok(()))) => if prepared.episode.generation
                == 0 {
                self.at(Stage::Prune(prepared))
            } else {
                self.at(Stage::Unlock(prepared))
            },
            (Stage::Write(_), Reply::Written(Err(error))) => self.at(Stage::Abandon(error)),
            (Stage::Abandon(error), Reply::Done) => Turn::Done(
                Handoff::RefusedBeforeRelease(Refusal::StateNotDurable(error)),
            ),
            (Stage::Prune(prepared), Reply::Done) => self.at(Stage::Unlock(prepared)),
            (Stage::Unlock(prepared), Reply::Done) => self.at(Stage::Binary(Some(prepared))),
            (Stage::Binary(prepared), Reply::Located(Ok(()))) => match self.attempt.release {
                Release::NothingHeld => self.at(Stage::Observe(prepared)),
                Release::SingleInstanceName => self.at(Stage::Release(prepared)),
            },
            (Stage::Binary(prepared), Reply::Located(Err(error))) => self.undone(
                prepared,
                Handoff::RefusedBeforeRelease(Refusal::NoBinary(error)),
            ),
            (Stage::Release(prepared), Reply::Done) => self.at(Stage::Observe(prepared)),
            (Stage::Observe(prepared), Reply::Observed(observation)) => match name_refusal(
                observation,
            ) {
                None => self.at(Stage::Spawn(prepared)),
                Some(refusal) => self.undone(prepared, self.attempt.turned_down(refusal)),
            },
            (Stage::Spawn(_), Reply::Spawned(Ok(_))) => Turn::Done(Handoff::Launched),
            (Stage::Spawn(prepared), Reply::Spawned(Err(error))) => self.undone(
                prepared,
                self.attempt.turned_down(Refusal::SpawnFailed(error)),
            ),
            (Stage::Relock(prepared, handoff), Reply::Locked(Ok(()))) => self.at(
                Stage::Reread(prepared, handoff),
            ),
            (Stage::Relock(_, handoff), Reply::Locked(Err(_))) => Turn::Done(handoff),
            // Identity-checked, because the lock was dropped before the spawn: a
            // concurrent launch may have prepared its own episode since, and a
            // blind restore would erase a record that a live child is about to
            // claim.
            (Stage::Reread(prepared, handoff), Reply::Found(found)) => if found matches Some(
                current,
            ) && is_current(current, prepared.episode) {
                self.at(Stage::Restore(prepared, handoff))
            } else {
                self.at(Stage::Reunlock(handoff))
            },
            (Stage::Restore(prepared, handoff), Reply::Written(_)) => if prepared.previous
                is Some {
                self.at(Stage::Reunlock(handoff))
            } else {
                Turn::Ask(self)
            },
            (Stage::Restore(prepared, handoff), Reply::Cleared(_)) => if prepared.previous
                is None {
                self.at(Stage::Reunlock(handoff))
            } else {
                Turn::Ask(self)
            },
            (Stage::Reunlock(handoff), Reply::Done) => Turn::Done(handoff),
            _ => Turn::Ask(self),
        }
    }
}

impl Attempt<String> {
    /// Which side of the release a refusal falls on.
    pub fn turn_down(&self, refusal: Refusal) -> (handoff: Handoff)
        ensures
            handoff@ == self@.turned_down(refusal@),
    {
        match self.release {
            Release::NothingHeld => Handoff::RefusedBeforeRelease(refusal),
            Release::SingleInstanceName => Handoff::RefusedAfterRelease(refusal),
        }
    }
}

/// Prepare a record for `episode` at the attempt's tier, release the
/// single-instance name, and spawn a child carrying the tier's exact
/// environment.
///
/// Without an episode this is a forced launch: nothing is prepared, nothing is
/// claimed, and nothing is persisted. It is a launch the ladder runs but does
/// not learn from.
pub fn hand_off(attempt: Attempt, episode: Option<Episode>) -> (turn: Turn<HandOff, Handoff>)
    ensures
        turn@ == handed(attempt@, opt(episode)),
{
    if attempt.tier > attempt.package.terminal_tier() {
        return Turn::Done(
            Handoff::RefusedBeforeRelease(no_such_tier(attempt.package, attempt.tier)),
        );
    }
    match episode {
        Some(episode) => Turn::Ask(HandOff { attempt, stage: Stage::Lock(episode) }),
        None => Turn::Ask(HandOff { attempt, stage: Stage::Binary(None) }),
    }
}

fn undo(attempt: Attempt, prepared: Option<Prepared>, handoff: Handoff) -> (turn: Turn<
    HandOff,
    Handoff,
>)
    ensures
        forall|stage: Stage<Seq<char>>|
            turn@ == (#[trigger] (HandOff { attempt: attempt@, stage }).undone(
                opt(prepared),
                handoff@,
            )),
{
    match prepared {
        Some(prepared) => Turn::Ask(HandOff { attempt, stage: Stage::Relock(prepared, handoff) }),
        None => Turn::Done(handoff),
    }
}

impl HandOff<String> {
    /// The request this handoff waits with.
    pub fn request(&self) -> (request: Request)
        ensures
            request@ == self@.asks(),
    {
        match &self.stage {
            Stage::Lock(_) => Request::Lock,
            Stage::Read(_) => Request::Read,
            Stage::Write(prepared) => Request::Write(
                prepare(
                    &prepared.episode,
                    self.attempt.package,
                    self.attempt.tier,
                    self.attempt.version.as_str(),
                ),
            ),
            Stage::Abandon(_) => Request::Unlock,
            Stage::Prune(prepared) => Request::PruneClaims {
                token: prepared.episode.token.clone(),
            },
            Stage::Unlock(_) => Request::Unlock,
            Stage::Binary(_) => Request::Binary,
            Stage::Release(_) => Request::Release,
            Stage::Observe(_) => Request::Observe { name: self.attempt.dbus_name.clone() },
            Stage::Spawn(prepared) => {
                let episode = match prepared {
                    Some(prepared) => Some(prepared.episode.clone()),
                    None => None,
                };
                let profile = profile_name(self.attempt.package, self.attempt.tier).to_owned();
                Request::Spawn {
                    package: self.attempt.package,
                    tier: self.attempt.tier,
                    tag: Tag { episode, profile },
                }
            },
            Stage::Relock(_, _) => Request::Lock,
            Stage::Reread(_, _) => Request::Read,
            Stage::Restore(prepared, _) => match &prepared.previous {
                Some(record) => Request::Write(record.clone()),
                None => Request::Clear,
            },
            Stage::Reunlock(_) => Request::Unlock,
        }
    }

    /// Take the next turn.
    pub fn step(self, reply: Reply) -> (turn: Turn<HandOff, Handoff>)
        ensures
            turn@ == self@.next(reply@),
    {
        let HandOff { attempt, stage } = self;
        let stage = match (stage, reply) {
            (Stage::Lock(episode), Reply::Locked(Ok(()))) => Stage::Read(episode),
            (Stage::Lock(_), Reply::Locked(Err(error))) => {
                return Turn::Done(Handoff::RefusedBeforeRelease(Refusal::StateNotDurable(error)));
            },
            (Stage::Read(episode), Reply::Found(previous)) => Stage::Write(
                Prepared { episode, previous },
            ),
            (Stage::Write(prepared), Reply::Written(Ok(()))) => if prepared.episode.generation
                == 0 {
                Stage::Prune(prepared)
            } else {
                Stage::Unlock(prepared)
            },
            (Stage::Write(_), Reply::Written(Err(error))) => Stage::Abandon(error),
            (Stage::Abandon(error), Reply::Done) => {
                return Turn::Done(Handoff::RefusedBeforeRelease(Refusal::StateNotDurable(error)));
            },
            (Stage::Prune(prepared), Reply::Done) => Stage::Unlock(prepared),
            (Stage::Unlock(prepared), Reply::Done) => Stage::Binary(Some(prepared)),
            (Stage::Binary(prepared), Reply::Located(Ok(()))) => match attempt.release {
                Release::NothingHeld => Stage::Observe(prepared),
                Release::SingleInstanceName => Stage::Release(prepared),
            },
            (Stage::Binary(prepared), Reply::Located(Err(error))) => {
                return undo(
                    attempt,
                    prepared,
                    Handoff::RefusedBeforeRelease(Refusal::NoBinary(error)),
                );
            },
            (Stage::Release(prepared), Reply::Done) => Stage::Observe(prepared),
            (Stage::Observe(prepared), Reply::Observed(observation)) => match probe_name(
                &observation,
            ) {
                None => Stage::Spawn(prepared),
                Some(refusal) => {
                    let handoff = attempt.turn_down(refusal);
                    return undo(attempt, prepared, handoff);
                },
            },
            (Stage::Spawn(_), Reply::Spawned(Ok(_))) => {
                return Turn::Done(Handoff::Launched);
            },
            (Stage::Spawn(prepared), Reply::Spawned(Err(error))) => {
                let handoff = attempt.turn_down(Refusal::SpawnFailed(error));
                return undo(attempt, prepared, handoff);
            },
            (Stage::Relock(prepared, handoff), Reply::Locked(result)) => match result {
                Ok(()) => Stage::Reread(prepared, handoff),
                Err(_) => {
                    return Turn::Done(handoff);
                },
            },
            (Stage::Reread(prepared, handoff), Reply::Found(found)) => {
                let ours = match &found {
                    Some(current) => same_episode(current, &prepared.episode),
                    None => false,
                };
                if ours {
                    Stage::Restore(prepared, handoff)
                } else {
                    Stage::Reunlock(handoff)
                }
            },
            (Stage::Restore(prepared, handoff), Reply::Written(_)) => {
                if prepared.previous.is_some() {
                    Stage::Reunlock(handoff)
                } else {
                    Stage::Restore(prepared, handoff)
                }
            },
            (Stage::Restore(prepared, handoff), Reply::Cleared(_)) => {
                if prepared.previous.is_none() {
                    Stage::Reunlock(handoff)
                } else {
                    Stage::Restore(prepared, handoff)
                }
            },
            (Stage::Reunlock(handoff), Reply::Done) => {
                return Turn::Done(handoff);
            },
            (stage, _) => stage,
        };
        Turn::Ask(HandOff { attempt, stage })
    }
}

} // verus!
