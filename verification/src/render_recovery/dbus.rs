//! Facts about the single-instance well-known name, read from the session bus.
//!
//! This module only *observes*; correlating an observation against a recorded
//! child is `classify`'s job. The distinction matters because "somebody owns
//! the name" is never evidence that our recovery child survived, and "the bus
//! did not answer" is never evidence that the name is free.

use crate::text::{labelled, same_text};
use vstd::prelude::*;

verus! {

/// The error with which the bus answers that a name has no owner.
pub const NAME_HAS_NO_OWNER: &'static str = "org.freedesktop.DBus.Error.NameHasNoOwner";

/// The single-instance name the app registers: its identifier plus
/// `.SingleInstance`.
pub open spec fn instance_name(identifier: Seq<char>) -> Seq<char> {
    identifier + ".SingleInstance"@
}

/// The single-instance name the app registers.
pub fn single_instance_name(identifier: &str) -> (name: String)
    ensures
        name@ == instance_name(identifier@),
{
    labelled(identifier, ".SingleInstance")
}

/// Who currently holds the well-known name.
#[derive(Debug, PartialEq, Eq)]
pub struct Owner<S = String> {
    pub unique_name: S,
    /// `None` when the bus refused to tell the process: the owner exists but
    /// cannot be identified.
    pub pid: Option<u32>,
}

impl View for Owner<String> {
    type V = Owner<Seq<char>>;

    open spec fn view(&self) -> Owner<Seq<char>> {
        Owner { unique_name: self.unique_name@, pid: self.pid }
    }
}

/// What the bus said about the name.
#[derive(Debug, PartialEq, Eq)]
pub enum Observation<S = String> {
    /// The bus reported no owner. The only state in which a handoff may proceed.
    Free,
    Owned(Owner<S>),
    /// The bus could not be reached or the call failed. Deliberately distinct
    /// from `Free`.
    Unavailable(S),
}

impl View for Observation<String> {
    type V = Observation<Seq<char>>;

    open spec fn view(&self) -> Observation<Seq<char>> {
        match self {
            Observation::Free => Observation::Free,
            Observation::Owned(owner) => Observation::Owned(owner@),
            Observation::Unavailable(detail) => Observation::Unavailable(detail@),
        }
    }
}

/// How asking the bus for a name's owner can end.
#[derive(Debug, PartialEq, Eq)]
pub enum OwnerReply<S = String> {
    /// The session bus could not be reached.
    NoBus(S),
    /// The bus named the owning connection, and perhaps its process.
    Owner(Owner<S>),
    /// The bus answered with something that is not a connection name.
    Malformed(S),
    /// The bus answered with the error `name`, which reads as `detail`.
    Refused { name: S, detail: S },
    /// The call itself failed.
    Failed(S),
}

impl View for OwnerReply<String> {
    type V = OwnerReply<Seq<char>>;

    open spec fn view(&self) -> OwnerReply<Seq<char>> {
        match self {
            OwnerReply::NoBus(error) => OwnerReply::NoBus(error@),
            OwnerReply::Owner(owner) => OwnerReply::Owner(owner@),
            OwnerReply::Malformed(error) => OwnerReply::Malformed(error@),
            OwnerReply::Refused { name, detail } => OwnerReply::Refused {
                name: name@,
                detail: detail@,
            },
            OwnerReply::Failed(error) => OwnerReply::Failed(error@),
        }
    }
}

/// What an answer about a name's owner says about the name.
pub open spec fn observation_of(reply: OwnerReply<Seq<char>>) -> Observation<Seq<char>> {
    match reply {
        OwnerReply::NoBus(error) => Observation::Unavailable("session bus: "@ + error),
        OwnerReply::Owner(owner) => Observation::Owned(owner),
        OwnerReply::Malformed(error) => Observation::Unavailable("GetNameOwner reply: "@ + error),
        OwnerReply::Refused { name, detail } => if name == NAME_HAS_NO_OWNER@ {
            Observation::Free
        } else {
            Observation::Unavailable("GetNameOwner: "@ + detail)
        },
        OwnerReply::Failed(error) => Observation::Unavailable("GetNameOwner: "@ + error),
    }
}

/// Read an answer about a name's owner.
///
/// The bus answers a name without an owner as an error reply; that is the one
/// failure that genuinely means "free".
pub fn observe(reply: OwnerReply) -> (observation: Observation)
    ensures
        observation@ == observation_of(reply@),
{
    match reply {
        OwnerReply::NoBus(error) => Observation::Unavailable(
            labelled("session bus: ", error.as_str()),
        ),
        OwnerReply::Owner(owner) => Observation::Owned(owner),
        OwnerReply::Malformed(error) => Observation::Unavailable(
            labelled("GetNameOwner reply: ", error.as_str()),
        ),
        OwnerReply::Refused { name, detail } => if same_text(name.as_str(), NAME_HAS_NO_OWNER) {
            Observation::Free
        } else {
            Observation::Unavailable(labelled("GetNameOwner: ", detail.as_str()))
        },
        OwnerReply::Failed(error) => Observation::Unavailable(
            labelled("GetNameOwner: ", error.as_str()),
        ),
    }
}

/// A name counts as free only on the bus's own word: no failure to reach or to
/// understand the bus is ever read as a free name.
pub proof fn only_the_bus_frees_a_name(reply: OwnerReply<Seq<char>>)
    ensures
        observation_of(reply) is Free <==> (reply matches OwnerReply::Refused { name, .. } && name
            == NAME_HAS_NO_OWNER@),
{
}

/// An owner that the bus names is reported as it was named, and every failure is
/// reported in its own words.
pub proof fn the_bus_is_quoted(
    reply: OwnerReply<Seq<char>>,
    owner: Owner<Seq<char>>,
    error: Seq<char>,
    name: Seq<char>,
)
    ensures
        observation_of(OwnerReply::Owner(owner)) == Observation::Owned(owner),
        observation_of(reply) is Owned ==> reply is Owner,
        observation_of(OwnerReply::NoBus(error)) == Observation::Unavailable(
            "session bus: "@ + error,
        ),
        observation_of(OwnerReply::Malformed(error)) == Observation::Unavailable(
            "GetNameOwner reply: "@ + error,
        ),
        observation_of(OwnerReply::Failed(error)) == Observation::Unavailable(
            "GetNameOwner: "@ + error,
        ),
        name != "org.freedesktop.DBus.Error.NameHasNoOwner"@ ==> observation_of(
            OwnerReply::Refused { name, detail: error },
        ) == Observation::Unavailable("GetNameOwner: "@ + error),
        observation_of(
            OwnerReply::Refused {
                name: "org.freedesktop.DBus.Error.NameHasNoOwner"@,
                detail: error,
            },
        ) is Free,
{
}

} // verus!
