//! How the recovery rules talk to the process that carries them out.
//!
//! The rules decide; the host acts. A task waits with one `Request`, the host
//! performs it and hands back the `Reply`, and the task takes its next turn. No
//! decision is left to the host, and no outside effect happens in a task.
//!
//! A reply that does not answer the request a task waits with leaves the task
//! where it is: it asks again.

use super::dbus::Observation;
use super::episode::{drawn, fresh, is_random_uuid, Episode};
use super::launcher::Tag;
use super::profiles::Package;
use super::state::{Claim, Record};
use crate::text::opt;
use vstd::prelude::*;

verus! {

/// What a task asks of its host.
#[derive(Debug, PartialEq, Eq)]
pub enum Request<S = String> {
    /// Take the exclusive state lock, waiting for whoever holds it.
    Lock,
    /// Give the state lock back.
    Unlock,
    /// Read the record. An unreadable or unparsable record counts as absent.
    Read,
    /// Atomically replace the record.
    Write(Record<S>),
    /// Delete the record and every claim.
    Clear,
    /// Drop every claim file but those of `token`.
    PruneClaims { token: S },
    /// Take exclusive ownership of one `(token, generation)`.
    Claim(Episode<S>),
    /// Mint a fresh episode.
    Mint,
    /// Ask the session bus who owns `name`.
    Observe { name: S },
    /// Ask the session bus for its own identity.
    BusId,
    /// Ask whether a process is running.
    Probe { pid: u32 },
    /// Resolve the binary to re-execute.
    Binary,
    /// Release the single-instance name. There is no way back.
    Release,
    /// Spawn a child carrying the exact environment of `tier` and `tag`.
    Spawn { package: Package, tier: usize, tag: Tag<S> },
}

impl View for Request<String> {
    type V = Request<Seq<char>>;

    open spec fn view(&self) -> Request<Seq<char>> {
        match self {
            Request::Lock => Request::Lock,
            Request::Unlock => Request::Unlock,
            Request::Read => Request::Read,
            Request::Write(record) => Request::Write(record@),
            Request::Clear => Request::Clear,
            Request::PruneClaims { token } => Request::PruneClaims { token: token@ },
            Request::Claim(episode) => Request::Claim(episode@),
            Request::Mint => Request::Mint,
            Request::Observe { name } => Request::Observe { name: name@ },
            Request::BusId => Request::BusId,
            Request::Probe { pid } => Request::Probe { pid: *pid },
            Request::Binary => Request::Binary,
            Request::Release => Request::Release,
            Request::Spawn { package, tier, tag } => Request::Spawn {
                package: *package,
                tier: *tier,
                tag: tag@,
            },
        }
    }
}

/// What a host hands back.
#[derive(Debug, PartialEq, Eq)]
pub enum Reply<S = String> {
    /// `Unlock`, `PruneClaims` or `Release` was carried out.
    Done,
    /// `Lock`: the lock is held now, or why it is not.
    Locked(Result<(), S>),
    /// `Read`: what the record says, if there is one.
    Found(Option<Record<S>>),
    /// `Write`: the record is durable now, or why it is not.
    Written(Result<(), S>),
    /// `Clear`: whether there was anything to delete.
    Cleared(bool),
    /// `Claim`: who owns it.
    Claimed(Claim<S>),
    /// `Mint`: the fresh episode.
    Minted(Episode<S>),
    /// `Observe`: what the bus said about the name.
    Observed(Observation<S>),
    /// `BusId`: the identity of the bus, if it answered.
    Bus(Option<S>),
    /// `Probe`: whether the process is running.
    Alive(bool),
    /// `Binary`: the binary is at hand, or why it is not.
    Located(Result<(), S>),
    /// `Spawn`: the child's pid, or why there is no child.
    Spawned(Result<u32, S>),
}

/// An outcome without a value, with its error as characters.
pub open spec fn settled(result: Result<(), String>) -> Result<(), Seq<char>> {
    match result {
        Ok(()) => Ok(()),
        Err(error) => Err(error@),
    }
}

impl View for Reply<String> {
    type V = Reply<Seq<char>>;

    open spec fn view(&self) -> Reply<Seq<char>> {
        match self {
            Reply::Done => Reply::Done,
            Reply::Locked(result) => Reply::Locked(settled(*result)),
            Reply::Found(record) => Reply::Found(opt(*record)),
            Reply::Written(result) => Reply::Written(settled(*result)),
            Reply::Cleared(existed) => Reply::Cleared(*existed),
            Reply::Claimed(claim) => Reply::Claimed(claim@),
            Reply::Minted(episode) => Reply::Minted(episode@),
            Reply::Observed(observation) => Reply::Observed(observation@),
            Reply::Bus(id) => Reply::Bus(opt(*id)),
            Reply::Alive(alive) => Reply::Alive(*alive),
            Reply::Located(result) => Reply::Located(settled(*result)),
            Reply::Spawned(result) => Reply::Spawned(
                match result {
                    Ok(pid) => Ok(*pid),
                    Err(error) => Err(error@),
                },
            ),
        }
    }
}

/// Answer `Mint`: a fresh attempt at a rung.
pub fn mint() -> (reply: Reply)
    ensures
        reply matches Reply::Minted(episode) && drawn(episode.token) && is_random_uuid(
            episode.token@,
        ) && episode.generation == 0,
{
    Reply::Minted(fresh())
}

/// A task's next turn: it waits for a reply, or it has come to its end.
#[derive(Debug, PartialEq, Eq)]
pub enum Turn<T, O> {
    Ask(T),
    Done(O),
}

impl<T: View, O: View> View for Turn<T, O> {
    type V = Turn<T::V, O::V>;

    open spec fn view(&self) -> Turn<T::V, O::V> {
        match self {
            Turn::Ask(task) => Turn::Ask(task@),
            Turn::Done(outcome) => Turn::Done(outcome@),
        }
    }
}

} // verus!
