//! Turning a durable record plus a bus observation into a boot decision.
//!
//! Pure over its inputs: the bus observation and process liveness are passed in.

use super::dbus::Observation;
use super::state::{Phase, Record, RETRY_GENERATION};
use crate::text::{opt, same_text};
use vstd::prelude::*;

verus! {

/// How the current name owner relates to the child the record names.
///
/// The `Uncorrelatable` arm is the one that is easy to get wrong: an owner that
/// exists but cannot be tied to our record is a handoff failure and a
/// diagnostic, and it is *never* evidence that the name is free.
#[derive(Clone, Copy, Debug, PartialEq, Eq, Structural)]
pub enum Ownership {
    /// Nobody owns the name.
    Absent,
    /// The owner is the child this record names.
    Correlated,
    /// A different process owns the name.
    Mismatched,
    /// Somebody owns the name but the record cannot be matched against them:
    /// no recorded identity, no owner pid, or a receipt from another bus.
    Uncorrelatable,
}

/// What a fresh, untagged process should do about the record it found.
#[derive(Debug, PartialEq, Eq)]
pub enum Decision<R = &'static str> {
    /// A live episode owns this app right now; this process is a duplicate.
    Defer(R),
    /// Re-run `tier` under the same token, one generation on.
    RetrySameTier { reason: R, tier: usize },
    /// The attempt at `tier` failed; move one rung down, or stop if `tier` was
    /// the last one.
    AdvanceOrStop { reason: R, tier: usize },
    /// A tier started cleanly under this version. Run it again.
    ReuseProfile { tier: usize },
    /// The ladder is spent. Run on and stop: no advance, no episode.
    StopExhausted { tier: usize },
    /// The record is unusable; delete it and launch from the baseline.
    DiscardAndBaseline { reason: R },
}

impl View for Decision<&'static str> {
    type V = Decision<Seq<char>>;

    open spec fn view(&self) -> Decision<Seq<char>> {
        match self {
            Decision::Defer(reason) => Decision::Defer(reason@),
            Decision::RetrySameTier { reason, tier } => Decision::RetrySameTier {
                reason: reason@,
                tier: *tier,
            },
            Decision::AdvanceOrStop { reason, tier } => Decision::AdvanceOrStop {
                reason: reason@,
                tier: *tier,
            },
            Decision::ReuseProfile { tier } => Decision::ReuseProfile { tier: *tier },
            Decision::StopExhausted { tier } => Decision::StopExhausted { tier: *tier },
            Decision::DiscardAndBaseline { reason } => Decision::DiscardAndBaseline {
                reason: reason@,
            },
        }
    }
}

// ── Correlation ─────────────────────────────────────────────────────────────

/// How the name's owner relates to the child that `record` names.
///
/// `owned` and `confirmed` records carry a unique name, which identifies a
/// connection precisely, but only on the bus that issued it. In every other
/// phase the only identity is the pid.
pub open spec fn ownership(
    record: Record<Seq<char>>,
    observation: Observation<Seq<char>>,
    bus_id: Option<Seq<char>>,
) -> Ownership {
    match observation {
        Observation::Free => Ownership::Absent,
        Observation::Unavailable(_) => Ownership::Uncorrelatable,
        Observation::Owned(owner) => if record.phase is Owned || record.phase is Confirmed {
            if record.unique_name is None || record.bus_id is None || record.bus_id != bus_id {
                Ownership::Uncorrelatable
            } else if record.unique_name == Some(owner.unique_name) {
                Ownership::Correlated
            } else {
                Ownership::Mismatched
            }
        } else {
            if record.pid is None || owner.pid is None {
                Ownership::Uncorrelatable
            } else if record.pid == owner.pid {
                Ownership::Correlated
            } else {
                Ownership::Mismatched
            }
        },
    }
}

/// Correlate the recorded child against what the bus reports.
pub fn correlate(record: &Record, observation: &Observation, bus_id: Option<&str>) -> (result:
    Ownership)
    ensures
        result == ownership(record@, observation@, opt(bus_id)),
{
    let owner = match observation {
        Observation::Free => return Ownership::Absent,
        // An unreachable bus proves nothing about the name. Treat it as an
        // owner we cannot identify rather than as a free name.
        Observation::Unavailable(_) => return Ownership::Uncorrelatable,
        Observation::Owned(owner) => owner,
    };
    match record.phase {
        Phase::Owned | Phase::Confirmed => match (&record.unique_name, &record.bus_id, bus_id) {
            (Some(unique_name), Some(recorded_bus), Some(bus)) => if !same_text(
                recorded_bus.as_str(),
                bus,
            ) {
                Ownership::Uncorrelatable
            } else if *unique_name == owner.unique_name {
                Ownership::Correlated
            } else {
                Ownership::Mismatched
            },
            _ => Ownership::Uncorrelatable,
        },
        _ => match (record.pid, owner.pid) {
            (Some(recorded), Some(actual)) => if recorded == actual {
                Ownership::Correlated
            } else {
                Ownership::Mismatched
            },
            _ => Ownership::Uncorrelatable,
        },
    }
}

// ── Decision ────────────────────────────────────────────────────────────────

/// What a fresh process does about `record`.
///
/// * A record of another version is discarded.
/// * An exhausted ladder stays exhausted: re-running it would loop forever
///   against a machine no profile satisfies.
/// * A prepared attempt that nobody claimed gets one retry, then fails.
/// * A started attempt is in flight while the recorded child owns the name, or
///   while the name is free and the child is alive; otherwise it failed.
/// * An owned attempt is in flight only while the same connection holds the
///   name.
/// * A confirmed profile is reused, unless its own instance still runs.
pub open spec fn decision(
    record: Record<Seq<char>>,
    observation: Observation<Seq<char>>,
    bus_id: Option<Seq<char>>,
    version: Seq<char>,
    alive: bool,
) -> Decision<Seq<char>> {
    let tier = record.tier;
    let owner = ownership(record, observation, bus_id);
    if record.version != version {
        Decision::DiscardAndBaseline { reason: "app version changed since the record was written"@ }
    } else {
        match record.phase {
            Phase::Exhausted => Decision::StopExhausted { tier },
            Phase::Prepared => if record.generation < RETRY_GENERATION {
                Decision::RetrySameTier { reason: "prepared attempt was never claimed"@, tier }
            } else {
                Decision::AdvanceOrStop {
                    reason: "prepared attempt was never claimed and the retry is spent"@,
                    tier,
                }
            },
            Phase::Started => match owner {
                Ownership::Correlated => Decision::Defer("recovery child owns the name"@),
                Ownership::Mismatched => Decision::AdvanceOrStop {
                    reason: "a different process owns the name: handoff failed"@,
                    tier,
                },
                Ownership::Uncorrelatable => Decision::AdvanceOrStop {
                    reason: "the name has an owner that cannot be correlated: handoff failed"@,
                    tier,
                },
                Ownership::Absent => if record.pid is Some && alive {
                    Decision::Defer("recovery child is alive in the pre-ownership interval"@)
                } else {
                    Decision::AdvanceOrStop {
                        reason: "recovery child is gone before acquiring the name"@,
                        tier,
                    }
                },
            },
            Phase::Owned => match owner {
                Ownership::Correlated => Decision::Defer("recovery child still owns the name"@),
                Ownership::Mismatched => Decision::AdvanceOrStop {
                    reason: "the recorded owner was replaced by another process"@,
                    tier,
                },
                Ownership::Uncorrelatable => Decision::AdvanceOrStop {
                    reason: "the name owner cannot be correlated to the recorded child"@,
                    tier,
                },
                Ownership::Absent => Decision::AdvanceOrStop {
                    reason: "the recorded owner released the name"@,
                    tier,
                },
            },
            Phase::Confirmed => match owner {
                Ownership::Correlated => Decision::Defer("the confirmed instance is still running"@),
                _ => Decision::ReuseProfile { tier },
            },
        }
    }
}

/// The process whose being alive decides what becomes of `record`: the child of a
/// started attempt of this version that has not taken the name yet.
pub open spec fn doubtful_pid(
    record: Record<Seq<char>>,
    observation: Observation<Seq<char>>,
    version: Seq<char>,
) -> Option<u32> {
    if record.version == version && record.phase is Started && observation is Free {
        record.pid
    } else {
        None
    }
}

/// The process to ask after before `record` is decided on, if any.
pub fn pid_to_probe(record: &Record, observation: &Observation, version: &str) -> (pid: Option<u32>)
    ensures
        pid == doubtful_pid(record@, observation@, version@),
{
    if !same_text(record.version.as_str(), version) || record.phase != Phase::Started {
        return None;
    }
    match observation {
        Observation::Free => record.pid,
        _ => None,
    }
}

/// Decide what to do with `record`.
///
/// `pid_alive` answers whether the recorded pre-ownership child is still
/// running; `version` is the current app version, which invalidates a persisted
/// profile across an upgrade.
pub fn decide(
    record: &Record,
    observation: &Observation,
    bus_id: Option<&str>,
    version: &str,
    pid_alive: bool,
) -> (result: Decision)
    ensures
        result@ == decision(record@, observation@, opt(bus_id), version@, pid_alive),
{
    if !same_text(record.version.as_str(), version) {
        return Decision::DiscardAndBaseline {
            reason: "app version changed since the record was written",
        };
    }
    let tier: usize = record.tier;
    let owner = correlate(record, observation, bus_id);
    match record.phase {
        Phase::Exhausted => Decision::StopExhausted { tier },
        // Nobody ever claimed this attempt: the child died before its first
        // action, or never started. One retry, same tier, next generation.
        Phase::Prepared => if record.generation < RETRY_GENERATION {
            Decision::RetrySameTier { reason: "prepared attempt was never claimed", tier }
        } else {
            Decision::AdvanceOrStop {
                reason: "prepared attempt was never claimed and the retry is spent",
                tier,
            }
        },
        // `started` is the bounded window between the claim and name
        // acquisition. Correlation against the *recorded* child is what
        // separates an episode in flight from a handoff failure.
        Phase::Started => match owner {
            Ownership::Correlated => Decision::Defer("recovery child owns the name"),
            Ownership::Mismatched => Decision::AdvanceOrStop {
                reason: "a different process owns the name: handoff failed",
                tier,
            },
            Ownership::Uncorrelatable => Decision::AdvanceOrStop {
                reason: "the name has an owner that cannot be correlated: handoff failed",
                tier,
            },
            // Name unowned: the child is either still in the pre-ownership
            // interval or gone.
            Ownership::Absent => if record.pid.is_some() && pid_alive {
                Decision::Defer("recovery child is alive in the pre-ownership interval")
            } else {
                Decision::AdvanceOrStop {
                    reason: "recovery child is gone before acquiring the name",
                    tier,
                }
            },
        },
        // `owned` means the child really did take over. Only the same
        // connection still holding the name keeps the episode in flight.
        Phase::Owned => match owner {
            Ownership::Correlated => Decision::Defer("recovery child still owns the name"),
            Ownership::Mismatched => Decision::AdvanceOrStop {
                reason: "the recorded owner was replaced by another process",
                tier,
            },
            Ownership::Uncorrelatable => Decision::AdvanceOrStop {
                reason: "the name owner cannot be correlated to the recorded child",
                tier,
            },
            Ownership::Absent => Decision::AdvanceOrStop {
                reason: "the recorded owner released the name",
                tier,
            },
        },
        // A tier that reached the startup boundary. This is the persisted
        // "last crash-free startup profile" fact.
        Phase::Confirmed => match owner {
            Ownership::Correlated => Decision::Defer("the confirmed instance is still running"),
            _ => Decision::ReuseProfile { tier },
        },
    }
}

} // verus!
