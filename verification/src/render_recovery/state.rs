//! Durable episode state: the `prepared → started → owned → confirmed` record
//! and the exclusive `(token, generation)` claim.
//!
//! Phases are monotonic and each post-parent phase records the identity that
//! makes the episode verifiable: a pid, then the D-Bus unique name and bus id.
//! Only the child that wins the exclusive claim ever writes a receipt.
//!
//! Claims are keyed on `(token, generation)` rather than the token alone. The
//! sole retry reuses the same token, and an exclusive claim is one-shot by
//! design, so a token-only key would make the retry lose its own claim against
//! the first attempt's file.
//!
//! Each type here is generic over how it holds its texts: code works on
//! `String`, specifications on `Seq<char>`.

use crate::text::{
    all_digits, copy_opt, decimal, is_digit, labelled, lemma_numeral, numeral, opt, same_text,
};
use vstd::prelude::*;

verus! {

/// Where the record and claim files live, relative to the app data dir.
pub const DIR: &'static str = "render-recovery";

pub const RECORD: &'static str = "episode.json";

pub const CLAIMS: &'static str = "claims";

/// The sole retry generation. An attempt whose child never claimed is retried
/// exactly once, under this generation; there is no later one.
pub const RETRY_GENERATION: u32 = 1;

#[derive(Clone, Copy, Debug, PartialEq, Eq, Structural)]
pub enum Phase {
    /// Written by the parent, atomically, before spawning.
    Prepared,
    /// Written by the exclusively claiming child as its first action.
    Started,
    /// Written by the same child once it holds the single-instance name.
    Owned,
    /// Written by the same child once the startup boundary passes. Doubles as
    /// the persisted "last crash-free startup profile" fact.
    Confirmed,
    /// The ladder ran out of rungs for this package. Terminal.
    Exhausted,
}

impl Phase {
    /// The place of a phase in the forward order.
    pub open spec fn rank(self) -> int {
        match self {
            Phase::Prepared => 0,
            Phase::Started => 1,
            Phase::Owned => 2,
            Phase::Confirmed => 3,
            Phase::Exhausted => 4,
        }
    }

    fn level(self) -> (level: u8)
        ensures
            level == self.rank(),
    {
        match self {
            Phase::Prepared => 0,
            Phase::Started => 1,
            Phase::Owned => 2,
            Phase::Confirmed => 3,
            Phase::Exhausted => 4,
        }
    }

    /// Whether this phase lies strictly ahead of `other`.
    pub fn outranks(self, other: Phase) -> (ahead: bool)
        ensures
            ahead == (self.rank() > other.rank()),
    {
        self.level() > other.level()
    }
}

/// The durable record. One file, rewritten atomically at each transition.
#[derive(Debug, PartialEq, Eq)]
pub struct Record<S = String> {
    pub phase: Phase,
    /// Attempt identity. A new rung mints a new token; the retry reuses it.
    pub token: S,
    /// Retry identity within the attempt: 0, and `RETRY_GENERATION` for the
    /// sole retry.
    pub generation: u32,
    /// Tier name, e.g. `shm-transport`. Recorded for the log; the tier index
    /// is what the ladder actually reads.
    pub profile: S,
    /// Tier index into the package's ladder.
    pub tier: usize,
    /// App version, so a persisted profile does not survive an upgrade.
    pub version: S,
    /// The claiming child's pid. Present from `started` onward.
    pub pid: Option<u32>,
    /// The child's D-Bus unique name. Present from `owned` onward.
    pub unique_name: Option<S>,
    /// The bus the unique name was issued on. A unique name is only meaningful
    /// against the bus that minted it; a different bus can reuse `:1.4`.
    pub bus_id: Option<S>,
}

impl View for Record<String> {
    type V = Record<Seq<char>>;

    open spec fn view(&self) -> Record<Seq<char>> {
        Record {
            phase: self.phase,
            token: self.token@,
            generation: self.generation,
            profile: self.profile@,
            tier: self.tier,
            version: self.version@,
            pid: self.pid,
            unique_name: opt(self.unique_name),
            bus_id: opt(self.bus_id),
        }
    }
}

impl Clone for Record<String> {
    fn clone(&self) -> (copy: Self)
        ensures
            copy == *self,
    {
        Record {
            phase: self.phase,
            token: self.token.clone(),
            generation: self.generation,
            profile: self.profile.clone(),
            tier: self.tier,
            version: self.version.clone(),
            pid: self.pid,
            unique_name: copy_opt(&self.unique_name),
            bus_id: copy_opt(&self.bus_id),
        }
    }
}

/// A record that no child has left its identity in yet.
pub open spec fn plain_record(
    phase: Phase,
    token: Seq<char>,
    generation: u32,
    profile: Seq<char>,
    tier: usize,
    version: Seq<char>,
) -> Record<Seq<char>> {
    Record {
        phase,
        token,
        generation,
        profile,
        tier,
        version,
        pid: None,
        unique_name: None,
        bus_id: None,
    }
}

impl Record<String> {
    pub fn new(
        phase: Phase,
        token: &str,
        generation: u32,
        profile: &str,
        tier: usize,
        version: &str,
    ) -> (record: Self)
        ensures
            record@ == plain_record(phase, token@, generation, profile@, tier, version@),
    {
        Record {
            phase,
            token: token.to_owned(),
            generation,
            profile: profile.to_owned(),
            tier,
            version: version.to_owned(),
            pid: None,
            unique_name: None,
            bus_id: None,
        }
    }
}

/// Outcome of an exclusive claim attempt.
#[derive(Debug, PartialEq, Eq)]
pub enum Claim<S = String> {
    /// This process owns the transition and must write the receipt.
    Won,
    /// Another process holds this `(token, generation)`. Write nothing.
    Lost,
    /// The claim could not be attempted. Also write nothing: a claim that
    /// cannot be proven exclusive is not a claim.
    Failed(S),
}

impl View for Claim<String> {
    type V = Claim<Seq<char>>;

    open spec fn view(&self) -> Claim<Seq<char>> {
        match self {
            Claim::Won => Claim::Won,
            Claim::Lost => Claim::Lost,
            Claim::Failed(error) => Claim::Failed(error@),
        }
    }
}

/// How creating a claim file exclusively can end.
#[derive(Debug, PartialEq, Eq)]
pub enum ClaimAttempt<S = String> {
    /// The directory for it could not be made.
    NoDirectory { path: S, error: S },
    /// It was created, and did not exist before.
    Created,
    /// It existed already.
    Exists,
    /// It could not be created for another reason.
    Refused { path: S, error: S },
}

impl View for ClaimAttempt<String> {
    type V = ClaimAttempt<Seq<char>>;

    open spec fn view(&self) -> ClaimAttempt<Seq<char>> {
        match self {
            ClaimAttempt::NoDirectory { path, error } => ClaimAttempt::NoDirectory {
                path: path@,
                error: error@,
            },
            ClaimAttempt::Created => ClaimAttempt::Created,
            ClaimAttempt::Exists => ClaimAttempt::Exists,
            ClaimAttempt::Refused { path, error } => ClaimAttempt::Refused {
                path: path@,
                error: error@,
            },
        }
    }
}

/// Who owns a claim after an attempt to create its file.
pub open spec fn claim_of(attempt: ClaimAttempt<Seq<char>>) -> Claim<Seq<char>> {
    match attempt {
        ClaimAttempt::NoDirectory { path, error } => Claim::Failed(
            "create "@ + path + ": "@ + error,
        ),
        ClaimAttempt::Created => Claim::Won,
        ClaimAttempt::Exists => Claim::Lost,
        ClaimAttempt::Refused { path, error } => Claim::Failed("claim "@ + path + ": "@ + error),
    }
}

/// Who owns a claim after an attempt to create its file.
///
/// Exclusive creation is the compare-and-transition primitive: of any number of
/// racing processes exactly one creates the file. A read and a later rename would
/// let two children both pass the read, and the loser write the last receipt.
pub fn claim_outcome(attempt: ClaimAttempt) -> (claim: Claim)
    ensures
        claim@ == claim_of(attempt@),
{
    match attempt {
        ClaimAttempt::NoDirectory { path, error } => Claim::Failed(
            fault("create ", path.as_str(), error.as_str()),
        ),
        ClaimAttempt::Created => Claim::Won,
        ClaimAttempt::Exists => Claim::Lost,
        ClaimAttempt::Refused { path, error } => Claim::Failed(
            fault("claim ", path.as_str(), error.as_str()),
        ),
    }
}

fn fault(verb: &str, path: &str, error: &str) -> (text: String)
    ensures
        text@ == verb@ + path@ + ": "@ + error@,
{
    verb.to_owned().concat(path).concat(": ").concat(error)
}

/// What can keep a record from becoming durable.
#[derive(Debug, PartialEq, Eq)]
pub enum WriteFault<S = String> {
    /// The state directory could not be made.
    Create { path: S, error: S },
    Encode { error: S },
    Open { path: S, error: S },
    Write { path: S, error: S },
    /// The new record could not take the place of the old one.
    Commit { path: S, error: S },
}

impl View for WriteFault<String> {
    type V = WriteFault<Seq<char>>;

    open spec fn view(&self) -> WriteFault<Seq<char>> {
        match self {
            WriteFault::Create { path, error } => WriteFault::Create {
                path: path@,
                error: error@,
            },
            WriteFault::Encode { error } => WriteFault::Encode { error: error@ },
            WriteFault::Open { path, error } => WriteFault::Open { path: path@, error: error@ },
            WriteFault::Write { path, error } => WriteFault::Write { path: path@, error: error@ },
            WriteFault::Commit { path, error } => WriteFault::Commit {
                path: path@,
                error: error@,
            },
        }
    }
}

impl WriteFault<Seq<char>> {
    /// The fault in words.
    pub open spec fn text(self) -> Seq<char> {
        match self {
            WriteFault::Create { path, error } => "create "@ + path + ": "@ + error,
            WriteFault::Encode { error } => "encode record: "@ + error,
            WriteFault::Open { path, error } => "open "@ + path + ": "@ + error,
            WriteFault::Write { path, error } => "write "@ + path + ": "@ + error,
            WriteFault::Commit { path, error } => "commit "@ + path + ": "@ + error,
        }
    }
}

impl WriteFault<String> {
    /// The fault in words.
    pub fn message(&self) -> (message: String)
        ensures
            message@ == self@.text(),
    {
        match self {
            WriteFault::Create { path, error } => fault("create ", path.as_str(), error.as_str()),
            WriteFault::Encode { error } => labelled("encode record: ", error.as_str()),
            WriteFault::Open { path, error } => fault("open ", path.as_str(), error.as_str()),
            WriteFault::Write { path, error } => fault("write ", path.as_str(), error.as_str()),
            WriteFault::Commit { path, error } => fault("commit ", path.as_str(), error.as_str()),
        }
    }
}

// ── Claim files ─────────────────────────────────────────────────────────────

/// The name of the claim file of one `(token, generation)`.
pub open spec fn claim_name(token: Seq<char>, generation: u32) -> Seq<char> {
    token + "-g"@ + numeral(generation as nat)
}

/// The name of the claim file of one `(token, generation)`.
pub fn claim_file(token: &str, generation: u32) -> (name: String)
    ensures
        name@ == claim_name(token@, generation),
{
    token.to_owned().concat("-g").concat(decimal(generation as usize).as_str())
}

/// Whether `name` is what a claim file of `token` is called, whatever its
/// generation: the token, `-g`, and one or more digits.
pub open spec fn claims_token(name: Seq<char>, token: Seq<char>) -> bool {
    let head = token + "-g"@;
    head.len() < name.len() && name.take(head.len() as int) == head && all_digits(
        name.skip(head.len() as int),
    )
}

/// Whether a claim file belongs to `token`, and so survives when the claims of
/// superseded episodes are dropped.
pub fn is_claim_of(name: &str, token: &str) -> (kept: bool)
    ensures
        kept == claims_token(name@, token@),
{
    let head = token.to_owned().concat("-g");
    let cut: usize = head.as_str().unicode_len();
    let len: usize = name.unicode_len();
    if cut >= len {
        return false;
    }
    let start = name.substring_char(0, cut);
    assert(start@ =~= name@.take(cut as int));
    if !same_text(start, head.as_str()) {
        return false;
    }
    let ghost rest = name@.skip(cut as int);
    let mut i: usize = cut;
    while i < len
        invariant
            cut <= i <= len,
            cut < len,
            len == name@.len(),
            rest == name@.skip(cut as int),
            cut == (token@ + "-g"@).len(),
            forall|k: int| 0 <= k < i - cut ==> is_digit(#[trigger] rest[k]),
        decreases len - i,
    {
        let c: char = name.get_char(i);
        assert(c == rest[i - cut]);
        if !(c >= '0' && c <= '9') {
            return false;
        }
        i = i + 1;
    }
    true
}

/// A name splits at most one way into a token, `-g`, and digits.
proof fn lemma_one_split(
    token: Seq<char>,
    digits: Seq<char>,
    other_token: Seq<char>,
    other_digits: Seq<char>,
)
    requires
        all_digits(digits),
        all_digits(other_digits),
        token + "-g"@ + digits == other_token + "-g"@ + other_digits,
    ensures
        token == other_token,
        digits == other_digits,
{
    reveal_strlit("-g");
    let name = token + "-g"@ + digits;
    let other_name = other_token + "-g"@ + other_digits;
    let n = token.len() as int;
    let m = other_token.len() as int;
    assert(name.len() == n + 2 + digits.len());
    assert(other_name.len() == m + 2 + other_digits.len());
    // The hyphen before `g` is the last one in the name, seen from either side.
    assert(name[n] == '-' && name[n + 1] == 'g');
    assert(other_name[m] == '-' && other_name[m + 1] == 'g');
    if n < m {
        if m >= n + 2 {
            assert(is_digit(digits[m - n - 2]));
            assert(name[m] == digits[m - n - 2]);
        }
    } else if m < n {
        if n >= m + 2 {
            assert(is_digit(other_digits[n - m - 2]));
            assert(other_name[n] == other_digits[n - m - 2]);
        }
    }
    assert(n == m);
    assert(token =~= name.take(n));
    assert(other_token =~= other_name.take(m));
    assert(digits =~= name.skip(n + 2));
    assert(other_digits =~= other_name.skip(m + 2));
}

/// Two different `(token, generation)` pairs never share a claim file.
pub proof fn claim_files_are_distinct(
    token: Seq<char>,
    generation: u32,
    other_token: Seq<char>,
    other_generation: u32,
)
    requires
        claim_name(token, generation) == claim_name(other_token, other_generation),
    ensures
        token == other_token,
        generation == other_generation,
{
    lemma_numeral(generation as nat);
    lemma_numeral(other_generation as nat);
    lemma_one_split(
        token,
        numeral(generation as nat),
        other_token,
        numeral(other_generation as nat),
    );
}

/// Dropping the claims of superseded episodes keeps exactly the current token's:
/// a claim file counts as `token`'s if and only if it was taken for `token`.
pub proof fn claim_files_name_their_token(claimed: Seq<char>, generation: u32, token: Seq<char>)
    ensures
        claims_token(claim_name(claimed, generation), token) <==> claimed == token,
{
    lemma_numeral(generation as nat);
    let head = token + "-g"@;
    let name = claim_name(claimed, generation);
    if claimed == token {
        assert(name.take(head.len() as int) =~= head);
        assert(name.skip(head.len() as int) =~= numeral(generation as nat));
    }
    if claims_token(name, token) {
        let rest = name.skip(head.len() as int);
        assert(name =~= head + rest);
        lemma_one_split(claimed, numeral(generation as nat), token, rest);
    }
}

/// A claim is won by creating its file and lost to whoever created it before; any
/// other end is a failure, which tells where and why.
pub proof fn a_claim_is_won_by_its_file(
    attempt: ClaimAttempt<Seq<char>>,
    path: Seq<char>,
    error: Seq<char>,
)
    ensures
        claim_of(attempt) is Won <==> attempt is Created,
        claim_of(attempt) is Lost <==> attempt is Exists,
        claim_of(ClaimAttempt::NoDirectory { path, error }) == Claim::Failed(
            "create "@ + path + ": "@ + error,
        ),
        claim_of(ClaimAttempt::Refused { path, error }) == Claim::Failed(
            "claim "@ + path + ": "@ + error,
        ),
{
}

/// A file counts as a claim of `token` exactly if its name is the token, `-g` and
/// digits.
pub proof fn claims_are_told_by_their_names(name: Seq<char>, token: Seq<char>)
    ensures
        claims_token(name, token) <==> exists|digits: Seq<char>| #[trigger]
            all_digits(digits) && name == token + "-g"@ + digits,
        forall|generation: u32| #[trigger]
            claim_name(token, generation) == token + "-g"@ + numeral(generation as nat),
{
    let head = token + "-g"@;
    if claims_token(name, token) {
        let digits = name.skip(head.len() as int);
        assert(name =~= head + digits);
        assert(all_digits(digits));
    }
    if exists|digits: Seq<char>| #[trigger]
        all_digits(digits) && name == token + "-g"@ + digits {
        let digits = choose|digits: Seq<char>| #[trigger]
            all_digits(digits) && name == token + "-g"@ + digits;
        assert(name.take(head.len() as int) =~= head);
        assert(name.skip(head.len() as int) =~= digits);
    }
}

/// A fault tells what was being done, where, and what went wrong.
pub proof fn faults_tell_where_and_why(path: Seq<char>, error: Seq<char>)
    ensures
        (WriteFault::Create { path, error }).text() == "create "@ + path + ": "@ + error,
        (WriteFault::Open { path, error }).text() == "open "@ + path + ": "@ + error,
        (WriteFault::Write { path, error }).text() == "write "@ + path + ": "@ + error,
        (WriteFault::Commit { path, error }).text() == "commit "@ + path + ": "@ + error,
        (WriteFault::<Seq<char>>::Encode { error }).text() == "encode record: "@ + error,
{
}

/// The phases come one after the other, from prepared to exhausted.
pub proof fn phases_come_in_order(phase: Phase, other: Phase)
    ensures
        Phase::Prepared.rank() < Phase::Started.rank() < Phase::Owned.rank(),
        Phase::Owned.rank() < Phase::Confirmed.rank() < Phase::Exhausted.rank(),
        phase.rank() == other.rank() <==> phase == other,
{
}

} // verus!
