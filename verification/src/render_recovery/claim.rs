//! How a tagged recovery child takes over the episode it was launched for.

use super::episode::{is_current, same_episode, Episode};
use super::protocol::{Reply, Request, Turn};
use super::state::{Claim, Phase, Record};
use vstd::prelude::*;

verus! {

/// What a tagged recovery child concluded about the episode it was sent to run.
#[derive(Debug, PartialEq, Eq)]
pub enum Claimed<S = String> {
    /// This process exclusively owns `episode` at `tier`, and `started` is
    /// durable.
    Owner { episode: Episode<S>, tier: usize },
    /// Another process owns this episode, or a newer one has replaced it. This
    /// process writes nothing and must not compete for the app.
    Superseded(S),
    /// There is no owner to defer to, and no receipt either. This process runs
    /// the environment it was handed, untracked.
    Untracked(S),
}

impl View for Claimed<String> {
    type V = Claimed<Seq<char>>;

    open spec fn view(&self) -> Claimed<Seq<char>> {
        match self {
            Claimed::Owner { episode, tier } => Claimed::Owner { episode: episode@, tier: *tier },
            Claimed::Superseded(reason) => Claimed::Superseded(reason@),
            Claimed::Untracked(reason) => Claimed::Untracked(reason@),
        }
    }
}

/// Where a claim stands.
#[derive(Debug, PartialEq, Eq)]
pub enum ClaimStage<S = String> {
    Lock,
    Read,
    /// The record is this child's, and nobody has claimed it yet.
    Claim(Record<S>),
    /// The claim is won; its receipt is not durable yet.
    Write(Record<S>),
    Unlock(Claimed<S>),
}

impl View for ClaimStage<String> {
    type V = ClaimStage<Seq<char>>;

    open spec fn view(&self) -> ClaimStage<Seq<char>> {
        match self {
            ClaimStage::Lock => ClaimStage::Lock,
            ClaimStage::Read => ClaimStage::Read,
            ClaimStage::Claim(record) => ClaimStage::Claim(record@),
            ClaimStage::Write(record) => ClaimStage::Write(record@),
            ClaimStage::Unlock(claimed) => ClaimStage::Unlock(claimed@),
        }
    }
}

/// A claim under way.
///
/// `episode` comes from the child's tag, never from the record on disk. By the
/// time a delayed child runs, a retry may have prepared a newer generation, and
/// adopting the record's generation would let the stale child write the newer
/// generation's receipt.
#[derive(Debug, PartialEq, Eq)]
pub struct Claiming<S = String> {
    pub episode: Episode<S>,
    pub pid: u32,
    pub stage: ClaimStage<S>,
}

impl View for Claiming<String> {
    type V = Claiming<Seq<char>>;

    open spec fn view(&self) -> Claiming<Seq<char>> {
        Claiming { episode: self.episode@, pid: self.pid, stage: self.stage@ }
    }
}

/// The receipt of the child that claimed `record`.
pub open spec fn started(record: Record<Seq<char>>, pid: u32) -> Record<Seq<char>> {
    Record { phase: Phase::Started, pid: Some(pid), ..record }
}

/// What a child may do about the record it read: claim it, or one of three
/// reasons to leave it alone.
pub open spec fn inspected(
    found: Option<Record<Seq<char>>>,
    episode: Episode<Seq<char>>,
) -> ClaimStage<Seq<char>> {
    match found {
        None => ClaimStage::Unlock(Claimed::Untracked("no episode record"@)),
        Some(record) => if !is_current(record, episode) {
            ClaimStage::Unlock(Claimed::Superseded("this episode is no longer current"@))
        } else if !(record.phase is Prepared) {
            ClaimStage::Unlock(Claimed::Superseded("this episode was already claimed"@))
        } else {
            ClaimStage::Claim(record)
        },
    }
}

impl Claiming<Seq<char>> {
    /// The request this claim waits with.
    pub open spec fn asks(self) -> Request<Seq<char>> {
        match self.stage {
            ClaimStage::Lock => Request::Lock,
            ClaimStage::Read => Request::Read,
            ClaimStage::Claim(_) => Request::Claim(self.episode),
            ClaimStage::Write(record) => Request::Write(started(record, self.pid)),
            ClaimStage::Unlock(_) => Request::Unlock,
        }
    }

    /// The claim at another stage.
    pub open spec fn at(self, stage: ClaimStage<Seq<char>>) -> Turn<
        Claiming<Seq<char>>,
        Claimed<Seq<char>>,
    > {
        Turn::Ask(Claiming { stage, ..self })
    }

    /// The claim after a reply.
    pub open spec fn next(self, reply: Reply<Seq<char>>) -> Turn<
        Claiming<Seq<char>>,
        Claimed<Seq<char>>,
    > {
        match (self.stage, reply) {
            (ClaimStage::Lock, Reply::Locked(Ok(()))) => self.at(ClaimStage::Read),
            (ClaimStage::Lock, Reply::Locked(Err(_))) => Turn::Done(
                Claimed::Untracked("the state lock was unavailable"@),
            ),
            (ClaimStage::Read, Reply::Found(found)) => self.at(inspected(found, self.episode)),
            (ClaimStage::Claim(record), Reply::Claimed(Claim::Won)) => self.at(
                ClaimStage::Write(record),
            ),
            (ClaimStage::Claim(_), Reply::Claimed(Claim::Lost)) => self.at(
                ClaimStage::Unlock(
                    Claimed::Superseded("another child claimed this episode first"@),
                ),
            ),
            (ClaimStage::Claim(_), Reply::Claimed(Claim::Failed(_))) => self.at(
                ClaimStage::Unlock(Claimed::Untracked("the claim could not be taken exclusively"@)),
            ),
            (ClaimStage::Write(record), Reply::Written(Ok(()))) => self.at(
                ClaimStage::Unlock(Claimed::Owner { episode: self.episode, tier: record.tier }),
            ),
            // The claim is taken and cannot be given back, but the record still
            // says `prepared`, and the next launch retries or advances it.
            (ClaimStage::Write(_), Reply::Written(Err(_))) => self.at(
                ClaimStage::Unlock(
                    Claimed::Untracked("the started receipt could not be persisted"@),
                ),
            ),
            (ClaimStage::Unlock(claimed), Reply::Done) => Turn::Done(claimed),
            _ => Turn::Ask(self),
        }
    }
}

/// Exclusively claim the prepared record this child was launched for.
pub fn claim(episode: Episode, pid: u32) -> (task: Claiming)
    ensures
        task@ == (Claiming { episode: episode@, pid, stage: ClaimStage::Lock }),
{
    Claiming { episode, pid, stage: ClaimStage::Lock }
}

fn inspect(found: Option<Record>, episode: &Episode) -> (stage: ClaimStage)
    ensures
        stage@ == inspected(crate::text::opt(found), episode@),
{
    match found {
        None => ClaimStage::Unlock(Claimed::Untracked("no episode record".to_owned())),
        Some(record) => if !same_episode(&record, episode) {
            ClaimStage::Unlock(
                Claimed::Superseded("this episode is no longer current".to_owned()),
            )
        } else if record.phase != Phase::Prepared {
            ClaimStage::Unlock(Claimed::Superseded("this episode was already claimed".to_owned()))
        } else {
            ClaimStage::Claim(record)
        },
    }
}

impl Claiming<String> {
    /// The request this claim waits with.
    pub fn request(&self) -> (request: Request)
        ensures
            request@ == self@.asks(),
    {
        match &self.stage {
            ClaimStage::Lock => Request::Lock,
            ClaimStage::Read => Request::Read,
            ClaimStage::Claim(_) => Request::Claim(self.episode.clone()),
            ClaimStage::Write(record) => {
                let mut receipt = record.clone();
                receipt.phase = Phase::Started;
                receipt.pid = Some(self.pid);
                Request::Write(receipt)
            },
            ClaimStage::Unlock(_) => Request::Unlock,
        }
    }

    /// Take the next turn.
    pub fn step(self, reply: Reply) -> (turn: Turn<Claiming, Claimed>)
        ensures
            turn@ == self@.next(reply@),
    {
        let Claiming { episode, pid, stage } = self;
        let stage = match (stage, reply) {
            (ClaimStage::Lock, Reply::Locked(Ok(()))) => ClaimStage::Read,
            (ClaimStage::Lock, Reply::Locked(Err(_))) => {
                return Turn::Done(Claimed::Untracked("the state lock was unavailable".to_owned()));
            },
            (ClaimStage::Read, Reply::Found(found)) => inspect(found, &episode),
            (ClaimStage::Claim(record), Reply::Claimed(claim)) => match claim {
                Claim::Won => ClaimStage::Write(record),
                Claim::Lost => ClaimStage::Unlock(
                    Claimed::Superseded("another child claimed this episode first".to_owned()),
                ),
                Claim::Failed(_) => ClaimStage::Unlock(
                    Claimed::Untracked("the claim could not be taken exclusively".to_owned()),
                ),
            },
            (ClaimStage::Write(record), Reply::Written(Ok(()))) => ClaimStage::Unlock(
                Claimed::Owner { episode: episode.clone(), tier: record.tier },
            ),
            (ClaimStage::Write(_), Reply::Written(Err(_))) => ClaimStage::Unlock(
                Claimed::Untracked("the started receipt could not be persisted".to_owned()),
            ),
            (ClaimStage::Unlock(claimed), Reply::Done) => {
                return Turn::Done(claimed);
            },
            (stage, _) => stage,
        };
        Turn::Ask(Claiming { episode, pid, stage })
    }
}

} // verus!
