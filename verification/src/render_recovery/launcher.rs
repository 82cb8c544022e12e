//! What a recovery child is launched with, and what can stand in the way.
//!
//! The launch sequence is written out in full:
//!
//! ```text
//! prepare the record atomically
//!   → release the single-instance name (running app only)
//!   → prove the name is free
//!   → spawn a process with an exact environment
//!   → the child claims the prepared record
//!   → the parent exits
//! ```
//!
//! Spawn success and a zero exit code are both worthless as survival signals: a
//! child that loses the name forwards its argv and exits 0. Only the child's
//! claim receipt, correlated against the name's owner, proves a handoff.

use super::dbus::Observation;
use super::episode::Episode;
use super::profiles::{
    keys, pairs, tier_vars, value_of, Env, Package, Tier, CPU_RENDERING, DISABLE_COMPOSITING,
    DISABLE_DMABUF, FORCE_SHM, GDK_BACKEND,
};
use crate::text::{
    decimal, labelled, lemma_in_either, lemma_says, numeral, numerals_round_trip, opt, parse_u32,
    parsed_u32, says,
};
use vstd::prelude::*;

verus! {

/// Environment tag carried by a recovery child.
pub const EPISODE: &'static str = "BUZZ_RENDER_EPISODE";

pub const GENERATION: &'static str = "BUZZ_RENDER_GENERATION";

pub const PROFILE: &'static str = "BUZZ_RENDER_PROFILE";

pub const FORCED: &'static str = "BUZZ_RENDER_FORCED";

/// Every variable a tag may use.
pub open spec fn tag_keys() -> Seq<Seq<char>> {
    seq![EPISODE@, GENERATION@, PROFILE@, FORCED@]
}

/// The tag a recovery child was launched with. Its presence is what tells the
/// child that the owned variables in its environment are its parent's profile
/// rather than the user's configuration.
#[derive(Debug, PartialEq, Eq)]
pub struct Tag<S = String> {
    /// `None` for a forced launch, which owns no episode and persists nothing.
    pub episode: Option<Episode<S>>,
    pub profile: S,
}

impl View for Tag<String> {
    type V = Tag<Seq<char>>;

    open spec fn view(&self) -> Tag<Seq<char>> {
        Tag {
            episode: opt(self.episode),
            profile: self.profile@,
        }
    }
}

/// The tag in an environment.
///
/// A tag missing its generation is malformed rather than generation 0:
/// defaulting would let a corrupted tag claim the original attempt.
pub open spec fn tag_in(env: Map<Seq<char>, Seq<char>>) -> Option<Tag<Seq<char>>> {
    match value_of(env, PROFILE@) {
        None => None,
        Some(profile) => if env.dom().contains(FORCED@) {
            Some(Tag { episode: None, profile })
        } else {
            match (value_of(env, EPISODE@), value_of(env, GENERATION@)) {
                (Some(token), Some(number)) => match parsed_u32(number) {
                    Some(generation) => if token.len() > 0 {
                        Some(Tag { episode: Some(Episode { token, generation }), profile })
                    } else {
                        None
                    },
                    None => None,
                },
                _ => None,
            }
        },
    }
}

impl Tag<String> {
    /// Read from the environment, or `None` for an ordinary launch.
    pub fn read(env: &Env) -> (tag: Option<Self>)
        ensures
            opt(tag) == tag_in(env@),
    {
        let profile = match env.get(PROFILE) {
            Some(profile) => profile,
            None => return None,
        };
        if env.has(FORCED) {
            return Some(Tag { episode: None, profile });
        }
        let token = match env.get(EPISODE) {
            Some(token) => token,
            None => return None,
        };
        if token.as_str().is_empty() {
            return None;
        }
        let number = match env.get(GENERATION) {
            Some(number) => number,
            None => return None,
        };
        match parse_u32(number.as_str()) {
            Some(generation) => Some(
                Tag { episode: Some(Episode { token, generation }), profile },
            ),
            None => None,
        }
    }
}

// ── Refusals ────────────────────────────────────────────────────────────────

/// Why a relaunch did not happen.
#[derive(Debug, PartialEq, Eq)]
pub enum Refusal<S = String> {
    /// The name has an owner, or the bus could not answer. Either way this is
    /// a handoff failure, never a free name.
    NameNotFree(S),
    /// The binary to re-execute could not be resolved.
    NoBinary(S),
    /// The spawn itself failed: no child exists.
    SpawnFailed(S),
    /// The prepared record could not be made durable. Refusing here is the
    /// point: a child that arrives to claim a record that was never written
    /// would run untracked, and the ladder would lose the attempt.
    StateNotDurable(S),
    /// The requested rung is not in this package's ladder.
    NoTier(S),
}

impl View for Refusal<String> {
    type V = Refusal<Seq<char>>;

    open spec fn view(&self) -> Refusal<Seq<char>> {
        match self {
            Refusal::NameNotFree(detail) => Refusal::NameNotFree(detail@),
            Refusal::NoBinary(detail) => Refusal::NoBinary(detail@),
            Refusal::SpawnFailed(detail) => Refusal::SpawnFailed(detail@),
            Refusal::StateNotDurable(detail) => Refusal::StateNotDurable(detail@),
            Refusal::NoTier(detail) => Refusal::NoTier(detail@),
        }
    }
}

impl Clone for Refusal<String> {
    fn clone(&self) -> (copy: Self)
        ensures
            copy == *self,
    {
        match self {
            Refusal::NameNotFree(detail) => Refusal::NameNotFree(detail.clone()),
            Refusal::NoBinary(detail) => Refusal::NoBinary(detail.clone()),
            Refusal::SpawnFailed(detail) => Refusal::SpawnFailed(detail.clone()),
            Refusal::StateNotDurable(detail) => Refusal::StateNotDurable(detail.clone()),
            Refusal::NoTier(detail) => Refusal::NoTier(detail.clone()),
        }
    }
}

impl Refusal<Seq<char>> {
    /// The refusal in words.
    pub open spec fn text(self) -> Seq<char> {
        match self {
            Refusal::NameNotFree(detail) => "single-instance name not free: "@ + detail,
            Refusal::NoBinary(detail) => "cannot locate the app binary: "@ + detail,
            Refusal::SpawnFailed(detail) => "spawn failed: "@ + detail,
            Refusal::StateNotDurable(detail) => "episode record not durable: "@ + detail,
            Refusal::NoTier(detail) => "no such renderer tier: "@ + detail,
        }
    }
}

impl Refusal<String> {
    /// The refusal in words.
    pub fn message(&self) -> (message: String)
        ensures
            message@ == self@.text(),
    {
        match self {
            Refusal::NameNotFree(detail) => labelled(
                "single-instance name not free: ",
                detail.as_str(),
            ),
            Refusal::NoBinary(detail) => labelled(
                "cannot locate the app binary: ",
                detail.as_str(),
            ),
            Refusal::SpawnFailed(detail) => labelled("spawn failed: ", detail.as_str()),
            Refusal::StateNotDurable(detail) => labelled(
                "episode record not durable: ",
                detail.as_str(),
            ),
            Refusal::NoTier(detail) => labelled("no such renderer tier: ", detail.as_str()),
        }
    }
}

/// The outcome of a handoff attempt, with the release of the single-instance
/// name made visible in the type.
///
/// The difference between the two refusals is the whole safety property:
/// releasing the name is irreversible, so a caller that has released it can
/// never simply run on.
#[derive(Debug, PartialEq, Eq)]
pub enum Handoff<S = String> {
    /// A child was spawned with the tier's exact environment. It is Buzz now.
    Launched,
    /// Refused while the caller still held everything it started with. Nothing
    /// was released; running on is safe.
    RefusedBeforeRelease(Refusal<S>),
    /// Refused after the name was released, so there is no way back.
    RefusedAfterRelease(Refusal<S>),
}

impl View for Handoff<String> {
    type V = Handoff<Seq<char>>;

    open spec fn view(&self) -> Handoff<Seq<char>> {
        match self {
            Handoff::Launched => Handoff::Launched,
            Handoff::RefusedBeforeRelease(refusal) => Handoff::RefusedBeforeRelease(refusal@),
            Handoff::RefusedAfterRelease(refusal) => Handoff::RefusedAfterRelease(refusal@),
        }
    }
}

impl Clone for Handoff<String> {
    fn clone(&self) -> (copy: Self)
        ensures
            copy == *self,
    {
        match self {
            Handoff::Launched => Handoff::Launched,
            Handoff::RefusedBeforeRelease(refusal) => Handoff::RefusedBeforeRelease(
                refusal.clone(),
            ),
            Handoff::RefusedAfterRelease(refusal) => Handoff::RefusedAfterRelease(refusal.clone()),
        }
    }
}

impl Handoff<String> {
    /// Whether no child was launched, so any state prepared for one must be
    /// rolled back. Deliberately blind to *which* side of the release it was:
    /// the rollback is the same either way, and only the process lifecycle
    /// decision cares about the side.
    pub fn refused(&self) -> (refused: bool)
        ensures
            refused == !(self@ is Launched),
    {
        !matches!(self, Handoff::Launched)
    }
}

/// An optional process id, written as its debug form.
pub open spec fn pid_text(pid: Option<u32>) -> Seq<char> {
    match pid {
        Some(pid) => "Some("@ + numeral(pid as nat) + ")"@,
        None => "None"@,
    }
}

/// Why the name's owner forbids a spawn, unless the name is free.
pub open spec fn name_refusal(observation: Observation<Seq<char>>) -> Option<Refusal<Seq<char>>> {
    match observation {
        Observation::Free => None,
        Observation::Owned(owner) => Some(
            Refusal::NameNotFree(
                "owned by "@ + owner.unique_name + " (pid "@ + pid_text(owner.pid) + ")"@,
            ),
        ),
        Observation::Unavailable(detail) => Some(Refusal::NameNotFree(detail)),
    }
}

/// Prove the name free, or say why it is not.
///
/// The probe is only meaningful once this process has stopped holding the name
/// itself, which is why every check that can be made earlier is made earlier.
pub fn probe_name(observation: &Observation) -> (refusal: Option<Refusal>)
    ensures
        opt(refusal) == name_refusal(observation@),
{
    match observation {
        Observation::Free => None,
        Observation::Owned(owner) => {
            let pid = match owner.pid {
                Some(pid) => "Some(".to_owned().concat(decimal(pid as usize).as_str()).concat(")"),
                None => "None".to_owned(),
            };
            Some(
                Refusal::NameNotFree(
                    "owned by ".to_owned().concat(owner.unique_name.as_str()).concat(
                        " (pid ",
                    ).concat(pid.as_str()).concat(")"),
                ),
            )
        },
        Observation::Unavailable(detail) => Some(Refusal::NameNotFree(detail.clone())),
    }
}

// ── The child's environment ─────────────────────────────────────────────────

/// One step in turning this process's environment into the child's.
#[derive(Debug, PartialEq, Eq)]
pub enum EnvChange<S = String> {
    Remove(S),
    Assign(S, S),
}

impl View for EnvChange<String> {
    type V = EnvChange<Seq<char>>;

    open spec fn view(&self) -> EnvChange<Seq<char>> {
        match self {
            EnvChange::Remove(key) => EnvChange::Remove(key@),
            EnvChange::Assign(key, value) => EnvChange::Assign(key@, value@),
        }
    }
}

/// Changes, each as its view sees it.
pub open spec fn steps(changes: Seq<EnvChange>) -> Seq<EnvChange<Seq<char>>> {
    changes.map_values(|change: EnvChange| change@)
}

/// The removal of each key, in order.
pub open spec fn removals(keys: Seq<Seq<char>>) -> Seq<EnvChange<Seq<char>>> {
    keys.map_values(|key: Seq<char>| EnvChange::Remove(key))
}

/// The assignment of each pair, in order.
pub open spec fn settings(vars: Seq<(Seq<char>, Seq<char>)>) -> Seq<EnvChange<Seq<char>>> {
    vars.map_values(|pair: (Seq<char>, Seq<char>)| EnvChange::Assign(pair.0, pair.1))
}

/// The variables that spell out a tag.
pub open spec fn tag_vars(tag: Tag<Seq<char>>) -> Seq<(Seq<char>, Seq<char>)> {
    match tag.episode {
        Some(episode) => seq![
            (PROFILE@, tag.profile),
            (EPISODE@, episode.token),
            (GENERATION@, numeral(episode.generation as nat)),
        ],
        None => seq![(PROFILE@, tag.profile), (FORCED@, "1"@)],
    }
}

/// Every owned variable and every tag variable removed, then the tier's pairs
/// and the tag added.
pub open spec fn exact_changes(
    package: Package,
    vars: Seq<(Seq<char>, Seq<char>)>,
    tag: Tag<Seq<char>>,
) -> Seq<EnvChange<Seq<char>>> {
    removals(package.owned() + tag_keys()) + settings(vars + tag_vars(tag))
}

/// Build the changes that make a child's owned-variable environment exactly
/// `tier`.
///
/// Every owned variable is removed first, then only the tier's pairs are added,
/// so an attempt never inherits the previous attempt's profile. Package scoping
/// applies to the removals too: on AppImage `GDK_BACKEND` is re-exported before
/// the child binary starts, so removing it here would be theatre.
pub fn exact_env(package: Package, tier: &Tier, tag: &Tag) -> (changes: Vec<EnvChange>)
    ensures
        steps(changes@) == exact_changes(package, pairs(tier.vars@), tag@),
{
    let mut changes: Vec<EnvChange> = Vec::new();
    let owned = package.owned_vars();
    let mut i: usize = 0;
    assert(steps(changes@) =~= removals(package.owned().take(0)));
    while i < owned.len()
        invariant
            i <= owned.len(),
            keys(owned@) == package.owned(),
            steps(changes@) == removals(package.owned().take(i as int)),
        decreases owned.len() - i,
    {
        remove(&mut changes, owned[i]);
        assert(package.owned()[i as int] == owned@[i as int]@);
        assert(removals(package.owned().take(i + 1)) =~= removals(
            package.owned().take(i as int),
        ).push(EnvChange::Remove(owned@[i as int]@)));
        i = i + 1;
    }
    assert(package.owned().take(i as int) =~= package.owned());
    remove(&mut changes, EPISODE);
    remove(&mut changes, GENERATION);
    remove(&mut changes, PROFILE);
    remove(&mut changes, FORCED);
    let ghost gone = removals(package.owned() + tag_keys());
    let ghost vars = pairs(tier.vars@);
    assert(gone =~= removals(package.owned()) + removals(tag_keys()));
    assert(steps(changes@) =~= gone);
    let mut j: usize = 0;
    assert(steps(changes@) =~= gone + settings(vars.take(0)));
    while j < tier.vars.len()
        invariant
            j <= tier.vars.len(),
            vars == pairs(tier.vars@),
            steps(changes@) == gone + settings(vars.take(j as int)),
        decreases tier.vars.len() - j,
    {
        let key: &'static str = tier.vars[j].0;
        let value: &'static str = tier.vars[j].1;
        assign(&mut changes, key, value);
        assert(vars[j as int] == (key@, value@));
        assert(gone + settings(vars.take(j + 1)) =~= (gone + settings(vars.take(j as int))).push(
            EnvChange::Assign(key@, value@),
        ));
        j = j + 1;
    }
    assert(vars.take(j as int) =~= vars);
    assign(&mut changes, PROFILE, tag.profile.as_str());
    match &tag.episode {
        Some(episode) => {
            assign(&mut changes, EPISODE, episode.token.as_str());
            let number = decimal(episode.generation as usize);
            assign(&mut changes, GENERATION, number.as_str());
        },
        None => {
            assign(&mut changes, FORCED, "1");
        },
    }
    assert(settings(vars + tag_vars(tag@)) =~= settings(vars) + settings(tag_vars(tag@)));
    assert(steps(changes@) =~= exact_changes(package, vars, tag@));
    changes
}

fn remove(changes: &mut Vec<EnvChange>, key: &str)
    ensures
        steps(final(changes)@) == steps(old(changes)@).push(EnvChange::Remove(key@)),
{
    changes.push(EnvChange::Remove(key.to_owned()));
    assert(steps(changes@) =~= steps(old(changes)@).push(EnvChange::Remove(key@)));
}

fn assign(changes: &mut Vec<EnvChange>, key: &str, value: &str)
    ensures
        steps(final(changes)@) == steps(old(changes)@).push(EnvChange::Assign(key@, value@)),
{
    changes.push(EnvChange::Assign(key.to_owned(), value.to_owned()));
    assert(steps(changes@) =~= steps(old(changes)@).push(EnvChange::Assign(key@, value@)));
}

// ── Laws of the child's environment ─────────────────────────────────────────

/// An environment after one change.
pub open spec fn changed(
    env: Map<Seq<char>, Seq<char>>,
    change: EnvChange<Seq<char>>,
) -> Map<Seq<char>, Seq<char>> {
    match change {
        EnvChange::Remove(key) => env.remove(key),
        EnvChange::Assign(key, value) => env.insert(key, value),
    }
}

/// An environment after a list of changes, applied in order.
pub open spec fn applied(
    env: Map<Seq<char>, Seq<char>>,
    changes: Seq<EnvChange<Seq<char>>>,
) -> Map<Seq<char>, Seq<char>>
    decreases changes.len(),
{
    if changes.len() == 0 {
        env
    } else {
        changed(applied(env, changes.drop_last()), changes.last())
    }
}

/// The value a list of pairs gives to `key`; the last pair wins.
pub open spec fn setting(vars: Seq<(Seq<char>, Seq<char>)>, key: Seq<char>) -> Option<Seq<char>>
    decreases vars.len(),
{
    if vars.len() == 0 {
        None
    } else if vars.last().0 == key {
        Some(vars.last().1)
    } else {
        setting(vars.drop_last(), key)
    }
}

proof fn lemma_applied_in_two(
    env: Map<Seq<char>, Seq<char>>,
    first: Seq<EnvChange<Seq<char>>>,
    second: Seq<EnvChange<Seq<char>>>,
)
    ensures
        applied(env, first + second) == applied(applied(env, first), second),
    decreases second.len(),
{
    if second.len() == 0 {
        assert(first + second =~= first);
    } else {
        lemma_applied_in_two(env, first, second.drop_last());
        assert((first + second).drop_last() =~= first + second.drop_last());
        assert((first + second).last() == second.last());
    }
}

proof fn lemma_removals(env: Map<Seq<char>, Seq<char>>, gone: Seq<Seq<char>>, key: Seq<char>)
    ensures
        value_of(applied(env, removals(gone)), key) == (if gone.contains(key) {
            None
        } else {
            value_of(env, key)
        }),
    decreases gone.len(),
{
    if gone.len() > 0 {
        let rest = gone.drop_last();
        lemma_removals(env, rest, key);
        assert(removals(gone).drop_last() =~= removals(rest));
        assert(removals(gone).last() == EnvChange::Remove(gone.last()));
        assert(gone.contains(key) <==> rest.contains(key) || gone.last() == key) by {
            if gone.contains(key) {
                let i = choose|i: int| 0 <= i < gone.len() && gone[i] == key;
                if i < gone.len() - 1 {
                    assert(rest[i] == key);
                }
            }
            if rest.contains(key) {
                let i = choose|i: int| 0 <= i < rest.len() && rest[i] == key;
                assert(gone[i] == key);
            }
            if gone.last() == key {
                assert(gone[gone.len() - 1] == key);
            }
        }
    }
}

proof fn lemma_settings(
    env: Map<Seq<char>, Seq<char>>,
    vars: Seq<(Seq<char>, Seq<char>)>,
    key: Seq<char>,
)
    ensures
        value_of(applied(env, settings(vars)), key) == (match setting(vars, key) {
            Some(value) => Some(value),
            None => value_of(env, key),
        }),
    decreases vars.len(),
{
    if vars.len() > 0 {
        lemma_settings(env, vars.drop_last(), key);
        assert(settings(vars).drop_last() =~= settings(vars.drop_last()));
        assert(settings(vars).last() == EnvChange::Assign(vars.last().0, vars.last().1));
    }
}

proof fn lemma_setting_in_two(
    first: Seq<(Seq<char>, Seq<char>)>,
    second: Seq<(Seq<char>, Seq<char>)>,
    key: Seq<char>,
)
    ensures
        setting(first + second, key) == (match setting(second, key) {
            Some(value) => Some(value),
            None => setting(first, key),
        }),
    decreases second.len(),
{
    if second.len() == 0 {
        assert(first + second =~= first);
    } else {
        lemma_setting_in_two(first, second.drop_last(), key);
        assert((first + second).drop_last() =~= first + second.drop_last());
        assert((first + second).last() == second.last());
    }
}

/// What each variable is worth to a child.
proof fn lemma_child_value(
    env: Map<Seq<char>, Seq<char>>,
    package: Package,
    vars: Seq<(Seq<char>, Seq<char>)>,
    tag: Tag<Seq<char>>,
    key: Seq<char>,
)
    ensures
        value_of(applied(env, exact_changes(package, vars, tag)), key) == (match setting(
            tag_vars(tag),
            key,
        ) {
            Some(value) => Some(value),
            None => match setting(vars, key) {
                Some(value) => Some(value),
                None => if (package.owned() + tag_keys()).contains(key) {
                    None
                } else {
                    value_of(env, key)
                },
            },
        }),
{
    let gone = package.owned() + tag_keys();
    lemma_applied_in_two(env, removals(gone), settings(vars + tag_vars(tag)));
    lemma_removals(env, gone, key);
    lemma_settings(applied(env, removals(gone)), vars + tag_vars(tag), key);
    lemma_setting_in_two(vars, tag_vars(tag), key);
}

/// The names involved are all different.
proof fn lemma_names_apart()
    ensures
        EPISODE@ != GENERATION@ && EPISODE@ != PROFILE@ && EPISODE@ != FORCED@,
        GENERATION@ != PROFILE@ && GENERATION@ != FORCED@ && PROFILE@ != FORCED@,
        forall|i: int, j: int|
            0 <= i < 5 && 0 <= j < 4 ==> #[trigger] Package::Native.owned()[i]
                != #[trigger] tag_keys()[j],
        FORCE_SHM@ != DISABLE_DMABUF@ && FORCE_SHM@ != CPU_RENDERING@,
        FORCE_SHM@ != DISABLE_COMPOSITING@ && FORCE_SHM@ != GDK_BACKEND@,
        DISABLE_DMABUF@ != CPU_RENDERING@ && DISABLE_DMABUF@ != DISABLE_COMPOSITING@,
        DISABLE_DMABUF@ != GDK_BACKEND@ && CPU_RENDERING@ != DISABLE_COMPOSITING@,
        CPU_RENDERING@ != GDK_BACKEND@ && DISABLE_COMPOSITING@ != GDK_BACKEND@,
{
    reveal_strlit("BUZZ_RENDER_EPISODE");
    reveal_strlit("BUZZ_RENDER_GENERATION");
    reveal_strlit("BUZZ_RENDER_PROFILE");
    reveal_strlit("BUZZ_RENDER_FORCED");
    reveal_strlit("WEBKIT_DMABUF_RENDERER_FORCE_SHM");
    reveal_strlit("WEBKIT_DISABLE_DMABUF_RENDERER");
    reveal_strlit("WEBKIT_SKIA_ENABLE_CPU_RENDERING");
    reveal_strlit("WEBKIT_DISABLE_COMPOSITING_MODE");
    reveal_strlit("GDK_BACKEND");
    assert(EPISODE@.len() == 19 && GENERATION@.len() == 22);
    assert(PROFILE@.len() == 19 && FORCED@.len() == 18);
    assert(FORCE_SHM@.len() == 32 && DISABLE_DMABUF@.len() == 30);
    assert(CPU_RENDERING@.len() == 32 && DISABLE_COMPOSITING@.len() == 31);
    assert(GDK_BACKEND@.len() == 11);
    assert(EPISODE@[12] == 'E' && PROFILE@[12] == 'P');
    assert(FORCE_SHM@[7] == 'D' && CPU_RENDERING@[7] == 'S');
    assert forall|i: int, j: int|
        0 <= i < 5 && 0 <= j < 4 implies #[trigger] Package::Native.owned()[i]
        != #[trigger] tag_keys()[j] by {
        assert(Package::Native.owned()[i][0] != 'B');
        assert(tag_keys()[j][0] == 'B');
    }
}

/// A child's environment is exactly its tier.
///
/// Whatever the parent's environment held, each owned variable has the value the
/// tier gives it and is unset if the tier gives it none; nothing outside the
/// owned and tag variables changes.
pub proof fn child_environment_is_exactly_its_tier(
    env: Map<Seq<char>, Seq<char>>,
    package: Package,
    tier: usize,
    tag: Tag<Seq<char>>,
    key: Seq<char>,
)
    requires
        tier < package.rungs(),
    ensures
        package.owned().contains(key) ==> value_of(
            applied(env, exact_changes(package, tier_vars(tier as int), tag)),
            key,
        ) == setting(tier_vars(tier as int), key),
        !package.owned().contains(key) && !tag_keys().contains(key) ==> value_of(
            applied(env, exact_changes(package, tier_vars(tier as int), tag)),
            key,
        ) == value_of(env, key),
{
    let vars = tier_vars(tier as int);
    lemma_names_apart();
    lemma_child_value(env, package, vars, tag, key);
    lemma_in_either(package.owned(), tag_keys(), key);
    assert(package.owned().contains(key) ==> !tag_keys().contains(key)) by {
        if package.owned().contains(key) && tag_keys().contains(key) {
            let i = choose|i: int| 0 <= i < package.owned().len() && package.owned()[i] == key;
            let j = choose|j: int| 0 <= j < tag_keys().len() && tag_keys()[j] == key;
            assert(Package::Native.owned()[i] == package.owned()[i]);
        }
    }
    lemma_setting_key(tag_vars(tag), key);
    lemma_setting_key(vars, key);
    if setting(tag_vars(tag), key) is Some {
        let i = choose|i: int| 0 <= i < tag_vars(tag).len() && tag_vars(tag)[i].0 == key;
        assert(tag_keys()[0] == EPISODE@ && tag_keys()[1] == GENERATION@);
        assert(tag_keys()[2] == PROFILE@ && tag_keys()[3] == FORCED@);
        assert(tag_keys().contains(key));
    }
    if setting(vars, key) is Some {
        let i = choose|i: int| 0 <= i < vars.len() && vars[i].0 == key;
        assert(package.owned()[0] == FORCE_SHM@ && package.owned()[1] == DISABLE_DMABUF@);
        assert(package.owned()[2] == CPU_RENDERING@);
        assert(package is Native ==> package.owned()[4] == GDK_BACKEND@);
        assert(package.owned().contains(key));
    }
}

proof fn lemma_setting_key(vars: Seq<(Seq<char>, Seq<char>)>, key: Seq<char>)
    ensures
        setting(vars, key) is Some ==> exists|i: int| 0 <= i < vars.len() && vars[i].0 == key,
    decreases vars.len(),
{
    if vars.len() > 0 && vars.last().0 != key {
        lemma_setting_key(vars.drop_last(), key);
        if setting(vars, key) is Some {
            let i = choose|i: int|
                0 <= i < vars.drop_last().len() && vars.drop_last()[i].0 == key;
            assert(vars[i].0 == key);
        }
    } else if vars.len() > 0 {
        assert(vars[vars.len() - 1].0 == key);
    }
}

/// A child reads back the tag it was launched with, whatever the parent's
/// environment held, provided its token is not empty.
pub proof fn tags_round_trip(
    env: Map<Seq<char>, Seq<char>>,
    package: Package,
    tier: usize,
    tag: Tag<Seq<char>>,
)
    requires
        tier < package.rungs(),
        tag.episode matches Some(episode) ==> episode.token.len() > 0,
    ensures
        tag_in(applied(env, exact_changes(package, tier_vars(tier as int), tag))) == Some(tag),
{
    let vars = tier_vars(tier as int);
    let child = applied(env, exact_changes(package, vars, tag));
    lemma_names_apart();
    lemma_child_value(env, package, vars, tag, PROFILE@);
    lemma_child_value(env, package, vars, tag, EPISODE@);
    lemma_child_value(env, package, vars, tag, GENERATION@);
    lemma_child_value(env, package, vars, tag, FORCED@);
    lemma_in_either(package.owned(), tag_keys(), FORCED@);
    assert(tag_keys()[3] == FORCED@);
    assert(tag_keys().contains(FORCED@));
    lemma_tier_sets_no_tag(tier);
    reveal_with_fuel(setting, 4);
    match tag.episode {
        Some(episode) => {
            numerals_round_trip(episode.generation);
            let all = tag_vars(tag);
            assert(all.drop_last() =~= seq![(PROFILE@, tag.profile), (EPISODE@, episode.token)]);
            assert(all.drop_last().drop_last() =~= seq![(PROFILE@, tag.profile)]);
        },
        None => {
            let all = tag_vars(tag);
            assert(all.drop_last() =~= seq![(PROFILE@, tag.profile)]);
        },
    }
}

proof fn lemma_tier_sets_no_tag(tier: usize)
    ensures
        setting(tier_vars(tier as int), FORCED@) is None,
{
    let vars = tier_vars(tier as int);
    lemma_names_apart();
    lemma_setting_key(vars, FORCED@);
    if setting(vars, FORCED@) is Some {
        let i = choose|i: int| 0 <= i < vars.len() && vars[i].0 == FORCED@;
        let owned = Package::Native.owned();
        assert(tag_keys()[3] == FORCED@);
        assert(owned[0] == FORCE_SHM@ && owned[1] == DISABLE_DMABUF@);
        assert(owned[2] == CPU_RENDERING@ && owned[4] == GDK_BACKEND@);
    }
}

/// The variables of each rung, as a child finds them.
///
/// Rungs one and two force shared memory, rungs from two on render on the CPU,
/// and rungs from three on turn dmabuf off; no rung sets the compositing mode. The
/// backend is native Linux's alone, and set by its last rung only. Whatever the
/// parent had, a variable that the rung does not set is gone.
pub proof fn a_child_finds_the_variables_of_its_rung(
    env: Map<Seq<char>, Seq<char>>,
    package: Package,
    tier: usize,
    tag: Tag<Seq<char>>,
)
    requires
        tier <= 3 || (tier == 4 && package is Native),
    ensures
        ({
            let child = applied(env, exact_changes(package, tier_vars(tier as int), tag));
            let on = |set: bool|
                if set {
                    Some("1"@)
                } else {
                    None
                };
            &&& value_of(child, "WEBKIT_DMABUF_RENDERER_FORCE_SHM"@) == on(tier == 1 || tier == 2)
            &&& value_of(child, "WEBKIT_SKIA_ENABLE_CPU_RENDERING"@) == on(tier >= 2)
            &&& value_of(child, "WEBKIT_DISABLE_DMABUF_RENDERER"@) == on(tier >= 3)
            &&& value_of(child, "WEBKIT_DISABLE_COMPOSITING_MODE"@) is None
            &&& value_of(child, "GDK_BACKEND"@) == (match package {
                Package::Native => if tier == 4 {
                    Some("x11"@)
                } else {
                    None
                },
                Package::AppImage => value_of(env, "GDK_BACKEND"@),
            })
        }),
{
    lemma_names_apart();
    let vars = tier_vars(tier as int);
    let owned = package.owned();
    assert(owned[0] == FORCE_SHM@ && owned[1] == DISABLE_DMABUF@);
    assert(owned[2] == CPU_RENDERING@ && owned[3] == DISABLE_COMPOSITING@);
    assert(package is Native ==> owned[4] == GDK_BACKEND@);
    child_environment_is_exactly_its_tier(env, package, tier, tag, FORCE_SHM@);
    child_environment_is_exactly_its_tier(env, package, tier, tag, DISABLE_DMABUF@);
    child_environment_is_exactly_its_tier(env, package, tier, tag, CPU_RENDERING@);
    child_environment_is_exactly_its_tier(env, package, tier, tag, DISABLE_COMPOSITING@);
    child_environment_is_exactly_its_tier(env, package, tier, tag, GDK_BACKEND@);
    if package is AppImage {
        assert(Package::Native.owned()[4] == GDK_BACKEND@);
        assert(!owned.contains(GDK_BACKEND@));
        assert(!tag_keys().contains(GDK_BACKEND@)) by {
            if tag_keys().contains(GDK_BACKEND@) {
                let j = choose|j: int| 0 <= j < tag_keys().len() && tag_keys()[j] == GDK_BACKEND@;
                assert(Package::Native.owned()[4] != tag_keys()[j]);
            }
        }
    }
    reveal_with_fuel(setting, 4);
    if vars.len() == 2 {
        assert(vars.drop_last() =~= seq![vars[0]]);
    } else if vars.len() == 3 {
        assert(vars.drop_last() =~= seq![vars[0], vars[1]]);
        assert(vars.drop_last().drop_last() =~= seq![vars[0]]);
    }
}

/// Only a free name lets a child be spawned, and whoever stands in the way is
/// told: the owner and its pid, or why the bus did not answer.
pub proof fn only_a_free_name_lets_a_child_pass(observation: Observation<Seq<char>>)
    ensures
        name_refusal(observation) is None <==> observation is Free,
        observation matches Observation::Unavailable(detail) ==> name_refusal(observation) == Some(
            Refusal::NameNotFree(detail),
        ),
        observation matches Observation::Owned(owner) ==> {
            &&& name_refusal(observation) matches Some(Refusal::NameNotFree(detail))
            &&& says(detail, owner.unique_name)
            &&& owner.pid matches Some(pid) ==> says(detail, numeral(pid as nat))
        },
{
    if let Observation::Owned(owner) = observation {
        let rest = " (pid "@ + pid_text(owner.pid) + ")"@;
        let detail = "owned by "@ + owner.unique_name + " (pid "@ + pid_text(owner.pid) + ")"@;
        assert(detail =~= "owned by "@ + owner.unique_name + rest);
        lemma_says("owned by "@, owner.unique_name, rest);
        if let Some(pid) = owner.pid {
            let front = "owned by "@ + owner.unique_name + " (pid "@ + "Some("@;
            let back = ")"@ + ")"@;
            assert(detail =~= front + numeral(pid as nat) + back);
            lemma_says(front, numeral(pid as nat), back);
        }
    }
}

/// Every refusal tells its detail in full, behind what was refused.
pub proof fn refusals_tell_their_detail(detail: Seq<char>)
    ensures
        Refusal::NameNotFree(detail).text() == "single-instance name not free: "@ + detail,
        Refusal::NoBinary(detail).text() == "cannot locate the app binary: "@ + detail,
        Refusal::SpawnFailed(detail).text() == "spawn failed: "@ + detail,
        Refusal::StateNotDurable(detail).text() == "episode record not durable: "@ + detail,
        Refusal::NoTier(detail).text() == "no such renderer tier: "@ + detail,
{
}

} // verus!
