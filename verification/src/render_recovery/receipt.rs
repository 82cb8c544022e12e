//! Writing down how far an attempt got.

use super::dbus::Observation;
use super::episode::{advances, may_advance, Episode};
use super::profiles::Package;
use super::protocol::{Reply, Request, Turn};
use super::state::Record;
use vstd::prelude::*;

verus! {

/// Where a receipt stands.
#[derive(Debug, PartialEq, Eq)]
pub enum NoteStage<S = String> {
    Lock,
    Read,
    Observe,
    BusId { unique_name: S },
    Write(Record<S>),
    Unlock,
}

impl View for NoteStage<String> {
    type V = NoteStage<Seq<char>>;

    open spec fn view(&self) -> NoteStage<Seq<char>> {
        match self {
            NoteStage::Lock => NoteStage::Lock,
            NoteStage::Read => NoteStage::Read,
            NoteStage::Observe => NoteStage::Observe,
            NoteStage::BusId { unique_name } => NoteStage::BusId { unique_name: unique_name@ },
            NoteStage::Write(record) => NoteStage::Write(record@),
            NoteStage::Unlock => NoteStage::Unlock,
        }
    }
}

/// A phase receipt on its way to the record.
///
/// Two conditions gate the write, both under the lock. The identity check
/// rejects a receipt for an episode that is no longer current: a confirmation
/// can be racing a crash handoff that has already prepared the next token. The
/// phase check rejects a receipt that does not move the record forward, so a
/// repeated or out-of-order callback cannot walk it backwards.
///
/// The receipt is bound to the bus id as well as the unique name: a unique name
/// like `:1.4` only identifies a connection on the bus that issued it.
#[derive(Debug, PartialEq, Eq)]
pub struct Noting<S = String> {
    pub dbus_name: S,
    /// The receipt, without the identity of the connection.
    pub receipt: Record<S>,
    pub stage: NoteStage<S>,
}

impl View for Noting<String> {
    type V = Noting<Seq<char>>;

    open spec fn view(&self) -> Noting<Seq<char>> {
        Noting { dbus_name: self.dbus_name@, receipt: self.receipt@, stage: self.stage@ }
    }
}

/// The attempt a record belongs to.
pub open spec fn attempt_of(record: Record<Seq<char>>) -> Episode<Seq<char>> {
    Episode { token: record.token, generation: record.generation }
}

impl Noting<Seq<char>> {
    /// The request this receipt waits with.
    pub open spec fn asks(self) -> Request<Seq<char>> {
        match self.stage {
            NoteStage::Lock => Request::Lock,
            NoteStage::Read => Request::Read,
            NoteStage::Observe => Request::Observe { name: self.dbus_name },
            NoteStage::BusId { .. } => Request::BusId,
            NoteStage::Write(record) => Request::Write(record),
            NoteStage::Unlock => Request::Unlock,
        }
    }

    /// The receipt at another stage.
    pub open spec fn at(self, stage: NoteStage<Seq<char>>) -> Turn<Noting<Seq<char>>, ()> {
        Turn::Ask(Noting { stage, ..self })
    }

    /// The receipt after a reply.
    ///
    /// Not owning the name does not block the receipt: the phase itself is still
    /// true, and a receipt with no recorded identity is read as uncorrelatable
    /// rather than as ours.
    pub open spec fn next(self, reply: Reply<Seq<char>>) -> Turn<Noting<Seq<char>>, ()> {
        match (self.stage, reply) {
            (NoteStage::Lock, Reply::Locked(Ok(()))) => self.at(NoteStage::Read),
            (NoteStage::Lock, Reply::Locked(Err(_))) => Turn::Done(()),
            (NoteStage::Read, Reply::Found(found)) => if advances(
                found,
                attempt_of(self.receipt),
                self.receipt.phase,
            ) {
                self.at(NoteStage::Observe)
            } else {
                self.at(NoteStage::Unlock)
            },
            (NoteStage::Observe, Reply::Observed(observation)) => match observation {
                Observation::Owned(owner) => self.at(
                    NoteStage::BusId { unique_name: owner.unique_name },
                ),
                _ => self.at(NoteStage::Write(self.receipt)),
            },
            (NoteStage::BusId { unique_name }, Reply::Bus(bus_id)) => self.at(
                NoteStage::Write(
                    Record { unique_name: Some(unique_name), bus_id, ..self.receipt },
                ),
            ),
            (NoteStage::Write(_), Reply::Written(_)) => self.at(NoteStage::Unlock),
            (NoteStage::Unlock, Reply::Done) => Turn::Done(()),
            _ => Turn::Ask(self),
        }
    }
}

impl Noting<String> {
    /// The request this receipt waits with.
    pub fn request(&self) -> (request: Request)
        ensures
            request@ == self@.asks(),
    {
        match &self.stage {
            NoteStage::Lock => Request::Lock,
            NoteStage::Read => Request::Read,
            NoteStage::Observe => Request::Observe { name: self.dbus_name.clone() },
            NoteStage::BusId { unique_name: _ } => Request::BusId,
            NoteStage::Write(record) => Request::Write(record.clone()),
            NoteStage::Unlock => Request::Unlock,
        }
    }

    /// Take the next turn.
    pub fn step(self, reply: Reply) -> (turn: Turn<Noting, ()>)
        ensures
            turn@ == self@.next(reply@),
    {
        let Noting { dbus_name, receipt, stage } = self;
        let stage = match (stage, reply) {
            (NoteStage::Lock, Reply::Locked(Ok(()))) => NoteStage::Read,
            (NoteStage::Lock, Reply::Locked(Err(_))) => {
                return Turn::Done(());
            },
            (NoteStage::Read, Reply::Found(found)) => {
                let episode = Episode {
                    token: receipt.token.clone(),
                    generation: receipt.generation,
                };
                if may_advance(found.as_ref(), &episode, receipt.phase) {
                    NoteStage::Observe
                } else {
                    NoteStage::Unlock
                }
            },
            (NoteStage::Observe, Reply::Observed(observation)) => match observation {
                Observation::Owned(owner) => NoteStage::BusId { unique_name: owner.unique_name },
                _ => NoteStage::Write(receipt.clone()),
            },
            (NoteStage::BusId { unique_name }, Reply::Bus(bus_id)) => {
                let mut record = receipt.clone();
                record.unique_name = Some(unique_name);
                record.bus_id = bus_id;
                NoteStage::Write(record)
            },
            (NoteStage::Write(_), Reply::Written(_)) => NoteStage::Unlock,
            (NoteStage::Unlock, Reply::Done) => {
                return Turn::Done(());
            },
            (stage, _) => stage,
        };
        Turn::Ask(Noting { dbus_name, receipt, stage })
    }
}

/// Where the record of a spent ladder stands.
#[derive(Clone, Copy, Debug, PartialEq, Eq, Structural)]
pub enum ExhaustStage {
    Lock,
    Write,
    Unlock,
}

/// The record that no profile survived, on its way to disk, so later launches
/// stop here instead of walking the whole ladder again on every start.
///
/// `Exhausted` outranks every other phase, which is what makes the terminal
/// state terminal even against a late receipt from the attempt that got here.
#[derive(Debug, PartialEq, Eq)]
pub struct Exhausting<S = String> {
    pub package: Package,
    pub record: Record<S>,
    pub stage: ExhaustStage,
}

impl View for Exhausting<String> {
    type V = Exhausting<Seq<char>>;

    open spec fn view(&self) -> Exhausting<Seq<char>> {
        Exhausting { package: self.package, record: self.record@, stage: self.stage }
    }
}

impl Exhausting<Seq<char>> {
    /// The request this record waits with.
    pub open spec fn asks(self) -> Request<Seq<char>> {
        match self.stage {
            ExhaustStage::Lock => Request::Lock,
            ExhaustStage::Write => Request::Write(self.record),
            ExhaustStage::Unlock => Request::Unlock,
        }
    }

    /// The record after a reply.
    pub open spec fn next(self, reply: Reply<Seq<char>>) -> Turn<Exhausting<Seq<char>>, ()> {
        match (self.stage, reply) {
            (ExhaustStage::Lock, Reply::Locked(Ok(()))) => Turn::Ask(
                Exhausting { stage: ExhaustStage::Write, ..self },
            ),
            (ExhaustStage::Lock, Reply::Locked(Err(_))) => Turn::Done(()),
            (ExhaustStage::Write, Reply::Written(_)) => Turn::Ask(
                Exhausting { stage: ExhaustStage::Unlock, ..self },
            ),
            (ExhaustStage::Unlock, Reply::Done) => Turn::Done(()),
            _ => Turn::Ask(self),
        }
    }
}

impl Exhausting<String> {
    /// The request this record waits with.
    pub fn request(&self) -> (request: Request)
        ensures
            request@ == self@.asks(),
    {
        match self.stage {
            ExhaustStage::Lock => Request::Lock,
            ExhaustStage::Write => Request::Write(self.record.clone()),
            ExhaustStage::Unlock => Request::Unlock,
        }
    }

    /// Take the next turn.
    pub fn step(self, reply: Reply) -> (turn: Turn<Exhausting, ()>)
        ensures
            turn@ == self@.next(reply@),
    {
        let stage = match (self.stage, reply) {
            (ExhaustStage::Lock, Reply::Locked(Ok(()))) => ExhaustStage::Write,
            (ExhaustStage::Lock, Reply::Locked(Err(_))) => {
                return Turn::Done(());
            },
            (ExhaustStage::Write, Reply::Written(_)) => ExhaustStage::Unlock,
            (ExhaustStage::Unlock, Reply::Done) => {
                return Turn::Done(());
            },
            (stage, _) => stage,
        };
        Turn::Ask(Exhausting { package: self.package, record: self.record, stage })
    }
}

} // verus!
