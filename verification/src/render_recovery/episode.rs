//! The pure rules of an episode: when a termination counts, where the ladder
//! goes next, and which receipts are still current.

use super::profiles::Package;
use super::state::{plain_record, Phase, Record, RETRY_GENERATION};
use crate::text::{is_digit, opt};
use vstd::prelude::*;

verus! {

/// Identity of one attempt. The token names the rung's attempt; the generation
/// distinguishes the original from its sole retry.
#[derive(Debug, PartialEq, Eq)]
pub struct Episode<S = String> {
    pub token: S,
    pub generation: u32,
}

impl View for Episode<String> {
    type V = Episode<Seq<char>>;

    open spec fn view(&self) -> Episode<Seq<char>> {
        Episode { token: self.token@, generation: self.generation }
    }
}

impl Clone for Episode<String> {
    fn clone(&self) -> (copy: Self)
        ensures
            copy == *self,
    {
        Episode { token: self.token.clone(), generation: self.generation }
    }
}

// ── Terminations ────────────────────────────────────────────────────────────

/// Why a web process went away, reduced to the only distinction the ladder
/// makes. An unknown reason lands in `Other`, the arm that never downgrades
/// anything.
#[derive(Clone, Copy, Debug, PartialEq, Eq, Structural)]
pub enum Termination {
    Crashed,
    Other,
}

/// How long after launch, in nanoseconds, a `Crashed` web process still counts
/// as a startup failure, and therefore how long a launch must survive to be
/// recorded as crash-free: five seconds.
///
/// The error direction is chosen: too short only loses a recovery the user can
/// still trigger with `--safe-rendering`, whereas too long downgrades rendering
/// for a crash that had nothing to do with startup. So it errs short.
pub const CRASH_ELIGIBILITY_WINDOW: u128 = 5_000_000_000;

/// Whether a termination, `since_launch` nanoseconds into the process, advances
/// the ladder. Only a `Crashed` web process inside the eligibility window does;
/// everything else is diagnostic.
pub open spec fn eligible(termination: Termination, since_launch: u128) -> bool {
    termination is Crashed && since_launch <= CRASH_ELIGIBILITY_WINDOW
}

/// Whether a termination advances the ladder.
pub fn advances_ladder(termination: Termination, since_launch: u128) -> (advances: bool)
    ensures
        advances == eligible(termination, since_launch),
{
    termination == Termination::Crashed && since_launch <= CRASH_ELIGIBILITY_WINDOW
}

// ── The ladder ──────────────────────────────────────────────────────────────

/// Where the ladder goes after a tier fails.
#[derive(Clone, Copy, Debug, PartialEq, Eq, Structural)]
pub enum Advance {
    /// Try this tier next.
    Tier(usize),
    /// No tier left for this package.
    Exhausted,
}

/// One tier down, or out of tiers.
pub open spec fn next_rung(package: Package, tier: usize) -> Advance {
    if tier < package.terminal() {
        Advance::Tier((tier + 1) as usize)
    } else {
        Advance::Exhausted
    }
}

/// Step down one tier, or run out.
///
/// This is also the per-package attempt cap. A crash always advances and never
/// repeats a tier, so the ladder can spend at most one attempt per tier and the
/// tier count *is* the cap: no separate counter can drift from it.
pub fn advance(package: Package, tier: usize) -> (next: Advance)
    ensures
        next == next_rung(package, tier),
{
    if tier < package.terminal_tier() {
        Advance::Tier(tier + 1)
    } else {
        Advance::Exhausted
    }
}

// ── Attempts ────────────────────────────────────────────────────────────────

/// The record of an attempt that is about to be spawned.
pub open spec fn prepared(
    episode: Episode<Seq<char>>,
    package: Package,
    tier: usize,
    version: Seq<char>,
) -> Record<Seq<char>> {
    plain_record(
        Phase::Prepared,
        episode.token,
        episode.generation,
        package.profile(tier as int),
        tier,
        version,
    )
}

/// The record a parent must make durable before spawning a child for `tier`.
pub fn prepare(episode: &Episode, package: Package, tier: usize, version: &str) -> (record: Record)
    ensures
        record@ == prepared(episode@, package, tier, version@),
{
    let name: &'static str = profile_name(package, tier);
    Record::new(
        Phase::Prepared,
        episode.token.as_str(),
        episode.generation,
        name,
        tier,
        version,
    )
}

/// The name of a rung, or nothing past the end of the ladder.
pub fn profile_name(package: Package, tier: usize) -> (name: &'static str)
    ensures
        name@ == package.profile(tier as int),
{
    match package.tier(tier) {
        Some(rung) => rung.name,
        None => {
            proof {
                reveal_strlit("");
            }
            assert(""@ =~= Seq::<char>::empty());
            ""
        },
    }
}

/// The retry of an unclaimed attempt: same token, one generation on.
pub open spec fn retried(record: Record<Seq<char>>) -> Episode<Seq<char>> {
    Episode { token: record.token, generation: (record.generation + RETRY_GENERATION) as u32 }
}

/// The retry of an unclaimed attempt: same token, one generation on.
pub fn retry_of(record: &Record) -> (episode: Episode)
    requires
        record.generation + RETRY_GENERATION <= u32::MAX,
    ensures
        episode@ == retried(record@),
{
    Episode { token: record.token.clone(), generation: record.generation + RETRY_GENERATION }
}

/// Whether a character is a lower-case hexadecimal digit.
pub open spec fn is_hex(c: char) -> bool {
    is_digit(c) || ('a' <= c && c <= 'f')
}

/// The shape of a random UUID in its hyphenated lower-case form.
pub open spec fn is_random_uuid(token: Seq<char>) -> bool {
    &&& token.len() == 36
    &&& forall|i: int|
        0 <= i < 36 ==> if i == 8 || i == 13 || i == 18 || i == 23 {
            #[trigger] token[i] == '-'
        } else {
            is_hex(token[i])
        }
    &&& token[14] == '4'
    &&& (token[19] == '8' || token[19] == '9' || token[19] == 'a' || token[19] == 'b')
}

/// A new token, from `uuid::Uuid::new_v4` and its `Display`.
///
/// Which token comes back is up to the operating system's random source; what
/// holds of each one is its shape: 36 characters, hyphens at four fixed places,
/// lower-case hexadecimal digits elsewhere, with the version digit 4 and a
/// variant digit of 8, 9, a or b. That two calls give different tokens is a
/// matter of chance and is not claimed. The call panics if the operating system
/// has no random bytes to give.
#[verifier::external_body]
fn new_token() -> (token: String)
    ensures
        is_random_uuid(token@),
{
    uuid::Uuid::new_v4().to_string()
}

/// Whether `token` came from the random source of tokens.
pub closed spec fn drawn(token: String) -> bool {
    call_ensures(new_token, (), token)
}

/// A fresh attempt at a rung. Its token is drawn for it.
pub fn fresh() -> (episode: Episode)
    ensures
        drawn(episode.token),
        is_random_uuid(episode.token@),
        episode.generation == 0,
{
    Episode { token: new_token(), generation: 0 }
}

// ── Receipts ────────────────────────────────────────────────────────────────

/// Whether `record` is the record of `episode`.
pub open spec fn is_current(record: Record<Seq<char>>, episode: Episode<Seq<char>>) -> bool {
    record.token == episode.token && record.generation == episode.generation
}

/// Whether `record` is the record of `episode`.
pub fn same_episode(record: &Record, episode: &Episode) -> (same: bool)
    ensures
        same == is_current(record@, episode@),
{
    record.token == episode.token && record.generation == episode.generation
}

/// Whether a receipt for `phase` may be written: `episode` is still the current
/// one, and the receipt moves its record forward.
pub open spec fn advances(
    current: Option<Record<Seq<char>>>,
    episode: Episode<Seq<char>>,
    phase: Phase,
) -> bool {
    current matches Some(record) && is_current(record, episode) && phase.rank()
        > record.phase.rank()
}

/// Whether a receipt for `phase` may be written over `current`.
///
/// Backwards and sideways are both rejected: a repeated callback has nothing to
/// add, and an out-of-order one must not undo a later phase. A cleared record is
/// not something a receipt may recreate: the record a receipt belongs to is
/// written by the parent before the child exists.
pub fn may_advance(current: Option<&Record>, episode: &Episode, phase: Phase) -> (may: bool)
    ensures
        may == advances(opt(current), episode@, phase),
{
    match current {
        Some(record) => same_episode(record, episode) && phase.outranks(record.phase),
        None => false,
    }
}

} // verus!
