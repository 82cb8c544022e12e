//! Package scoping, profile-owned environment variables, and the tier table.
//!
//! Two rules drive the shape:
//!
//! * WebKit memoizes each of these variables once per process, so a profile can
//!   only be applied by launching a fresh process with an exact environment.
//! * Ownership is **package-scoped**. `GDK_BACKEND=x11` is a package invariant
//!   on AppImage, where the AppRun hook exports it unconditionally before the
//!   binary starts, so its presence there is never a user signal and a tier that
//!   sets it is a no-op.

use crate::text::{opt, same_text, texts};
use vstd::prelude::*;

verus! {

// ── Environment ─────────────────────────────────────────────────────────────

/// A snapshot of the process environment.
///
/// The view is the map from each variable to its value.
pub struct Env {
    vars: Vec<(String, String)>,
}

/// The value of `key` under a list of assignments; the last one made wins.
spec fn assigned(vars: Seq<(String, String)>, key: Seq<char>) -> Option<Seq<char>>
    decreases vars.len(),
{
    if vars.len() == 0 {
        None
    } else if vars.last().0@ == key {
        Some(vars.last().1@)
    } else {
        assigned(vars.drop_last(), key)
    }
}

impl View for Env {
    type V = Map<Seq<char>, Seq<char>>;

    closed spec fn view(&self) -> Map<Seq<char>, Seq<char>> {
        Map::new(
            |key: Seq<char>| assigned(self.vars@, key) is Some,
            |key: Seq<char>| assigned(self.vars@, key)->0,
        )
    }
}

/// The value of `key` in an environment, if it is set.
pub open spec fn value_of(env: Map<Seq<char>, Seq<char>>, key: Seq<char>) -> Option<Seq<char>> {
    if env.dom().contains(key) {
        Some(env[key])
    } else {
        None
    }
}

impl Env {
    /// The empty environment.
    pub fn new() -> (env: Self)
        ensures
            env@ == Map::<Seq<char>, Seq<char>>::empty(),
    {
        let env = Env { vars: Vec::new() };
        assert(env@ =~= Map::<Seq<char>, Seq<char>>::empty());
        env
    }

    /// Assign `key`, replacing any value it had.
    pub fn set(&mut self, key: String, value: String)
        ensures
            final(self)@ == old(self)@.insert(key@, value@),
    {
        let ghost before = self.vars@;
        self.vars.push((key, value));
        assert(self.vars@.drop_last() =~= before);
        assert(self@ =~= old(self)@.insert(key@, value@));
    }

    /// The value of `key`, if it is set.
    pub fn get(&self, key: &str) -> (value: Option<String>)
        ensures
            opt(value) == value_of(self@, key@),
    {
        let mut i: usize = self.vars.len();
        assert(self.vars@.take(i as int) =~= self.vars@);
        while i > 0
            invariant
                i <= self.vars.len(),
                assigned(self.vars@, key@) == assigned(self.vars@.take(i as int), key@),
            decreases i,
        {
            i = i - 1;
            let ghost upto = self.vars@.take(i + 1);
            assert(upto.drop_last() =~= self.vars@.take(i as int));
            assert(upto.last() == self.vars@[i as int]);
            if same_text(self.vars[i].0.as_str(), key) {
                return Some(self.vars[i].1.clone());
            }
        }
        None
    }

    /// Whether `key` is set, to any value.
    pub fn has(&self, key: &str) -> (present: bool)
        ensures
            present == self@.dom().contains(key@),
    {
        self.get(key).is_some()
    }
}

// ── Packages ────────────────────────────────────────────────────────────────

/// How this process was packaged, which decides both the owned variable set
/// and the number of ladder tiers.
#[derive(Clone, Copy, Debug, PartialEq, Eq, Structural)]
pub enum Package {
    AppImage,
    Native,
}

/// The variable that an AppImage runtime exports to what it starts.
pub const APPIMAGE: &'static str = "APPIMAGE";

pub const FORCE_SHM: &'static str = "WEBKIT_DMABUF_RENDERER_FORCE_SHM";

pub const DISABLE_DMABUF: &'static str = "WEBKIT_DISABLE_DMABUF_RENDERER";

pub const CPU_RENDERING: &'static str = "WEBKIT_SKIA_ENABLE_CPU_RENDERING";

/// No tier sets this one: it is owned so that a user value still opts out.
pub const DISABLE_COMPOSITING: &'static str = "WEBKIT_DISABLE_COMPOSITING_MODE";

/// Owned on native Linux only. See the module docs.
pub const GDK_BACKEND: &'static str = "GDK_BACKEND";

/// One rung of the ladder: a name plus the exact variable set it applies.
///
/// The set is exhaustive: an attempt's environment is every owned variable
/// removed, then exactly these pairs added.
#[derive(Debug, PartialEq, Eq)]
pub struct Tier {
    pub name: &'static str,
    pub vars: Vec<(&'static str, &'static str)>,
}

/// Keys and values as characters.
pub open spec fn pairs(vars: Seq<(&'static str, &'static str)>) -> Seq<(Seq<char>, Seq<char>)> {
    vars.map_values(|pair: (&'static str, &'static str)| (pair.0@, pair.1@))
}

/// Keys as characters.
pub open spec fn keys(vars: Seq<&'static str>) -> Seq<Seq<char>> {
    vars.map_values(|key: &'static str| key@)
}

/// The name of each rung, from the fastest to the safest.
pub open spec fn tier_name(index: int) -> Seq<char> {
    if index == 0 {
        "full-gpu"@
    } else if index == 1 {
        "shm-transport"@
    } else if index == 2 {
        "cpu-raster"@
    } else if index == 3 {
        "no-accel"@
    } else {
        "x11-fallback"@
    }
}

/// The variables each rung sets.
///
/// Rung 1 drops zero-copy dmabuf but keeps accelerated compositing and threaded
/// scrolling; rung 2 adds CPU rasterization on top; rung 3 also loses
/// accelerated compositing and threaded scrolling; rung 4 pins the backend,
/// which only native Linux leaves open.
pub open spec fn tier_vars(index: int) -> Seq<(Seq<char>, Seq<char>)> {
    if index == 0 {
        seq![]
    } else if index == 1 {
        seq![(FORCE_SHM@, "1"@)]
    } else if index == 2 {
        seq![(FORCE_SHM@, "1"@), (CPU_RENDERING@, "1"@)]
    } else if index == 3 {
        seq![(DISABLE_DMABUF@, "1"@), (CPU_RENDERING@, "1"@)]
    } else {
        seq![(DISABLE_DMABUF@, "1"@), (CPU_RENDERING@, "1"@), (GDK_BACKEND@, "x11"@)]
    }
}

/// How a process with this environment was packaged.
pub open spec fn package_in(env: Map<Seq<char>, Seq<char>>) -> Package {
    if env.dom().contains(APPIMAGE@) {
        Package::AppImage
    } else {
        Package::Native
    }
}

impl Package {
    /// The variables this package's profiles own, exhaustively.
    pub open spec fn owned(self) -> Seq<Seq<char>> {
        match self {
            Package::AppImage => seq![
                FORCE_SHM@,
                DISABLE_DMABUF@,
                CPU_RENDERING@,
                DISABLE_COMPOSITING@,
            ],
            Package::Native => seq![
                FORCE_SHM@,
                DISABLE_DMABUF@,
                CPU_RENDERING@,
                DISABLE_COMPOSITING@,
                GDK_BACKEND@,
            ],
        }
    }

    /// How many rungs this package's ladder has.
    pub open spec fn rungs(self) -> nat {
        match self {
            Package::AppImage => 4,
            Package::Native => 5,
        }
    }

    /// The index of the last rung.
    pub open spec fn terminal(self) -> int {
        self.rungs() - 1
    }

    /// The name of a rung, or nothing past the end of the ladder.
    pub open spec fn profile(self, index: int) -> Seq<char> {
        if 0 <= index < self.rungs() {
            tier_name(index)
        } else {
            Seq::empty()
        }
    }

    /// Detected from the AppImage runtime's own variable, so the launcher and the
    /// ownership check agree about which binary would be re-executed.
    pub fn detect(env: &Env) -> (package: Self)
        ensures
            package == package_in(env@),
    {
        if env.has(APPIMAGE) {
            Package::AppImage
        } else {
            Package::Native
        }
    }

    /// The variables this package's profiles own. A user assignment of any of
    /// them disables recovery wholesale.
    pub fn owned_vars(self) -> (vars: Vec<&'static str>)
        ensures
            keys(vars@) == self.owned(),
    {
        let mut vars: Vec<&'static str> = Vec::new();
        vars.push(FORCE_SHM);
        vars.push(DISABLE_DMABUF);
        vars.push(CPU_RENDERING);
        vars.push(DISABLE_COMPOSITING);
        match self {
            Package::AppImage => {},
            Package::Native => {
                vars.push(GDK_BACKEND);
            },
        }
        assert(keys(vars@) =~= self.owned());
        vars
    }

    /// The ladder for this package: four rungs on AppImage, five on native Linux.
    pub fn tiers(self) -> (tiers: Vec<Tier>)
        ensures
            tiers@.len() == self.rungs(),
            forall|i: int|
                0 <= i < tiers@.len() ==> (#[trigger] tiers@[i]).name@ == tier_name(i) && pairs(
                    tiers@[i].vars@,
                ) == tier_vars(i),
    {
        let mut tiers: Vec<Tier> = Vec::new();
        let count: usize = self.terminal_tier() + 1;
        let mut i: usize = 0;
        while i < count
            invariant
                i <= count,
                count == self.rungs(),
                tiers@.len() == i,
                forall|k: int|
                    0 <= k < i ==> (#[trigger] tiers@[k]).name@ == tier_name(k) && pairs(
                        tiers@[k].vars@,
                    ) == tier_vars(k),
            decreases count - i,
        {
            tiers.push(rung(i));
            i = i + 1;
        }
        tiers
    }

    /// Index of the last rung. Reaching it and crashing again exhausts the
    /// ladder: one crash advances exactly one rung, so the rung count *is* the
    /// per-package attempt cap.
    pub fn terminal_tier(self) -> (index: usize)
        ensures
            index == self.terminal(),
    {
        match self {
            Package::AppImage => 3,
            Package::Native => 4,
        }
    }

    /// The rung at `index`, if this package's ladder has it.
    pub fn tier(self, index: usize) -> (tier: Option<Tier>)
        ensures
            tier is Some <==> index < self.rungs(),
            tier matches Some(t) ==> t.name@ == tier_name(index as int) && pairs(t.vars@)
                == tier_vars(index as int),
    {
        if index <= self.terminal_tier() {
            Some(rung(index))
        } else {
            None
        }
    }

    /// The index of the rung called `name`, if this package's ladder has it.
    pub open spec fn named(self, name: Seq<char>) -> Option<usize> {
        if name == tier_name(0) {
            Some(0)
        } else if name == tier_name(1) {
            Some(1)
        } else if name == tier_name(2) {
            Some(2)
        } else if name == tier_name(3) {
            Some(3)
        } else if name == tier_name(4) && self == Package::Native {
            Some(4)
        } else {
            None
        }
    }

    /// The index of the rung called `name`, if this package's ladder has it.
    pub fn tier_named(self, name: &str) -> (index: Option<usize>)
        ensures
            index == self.named(name@),
    {
        let count: usize = self.terminal_tier() + 1;
        let mut i: usize = 0;
        while i < count
            invariant
                i <= count,
                count == self.rungs(),
                forall|k: int| 0 <= k < i ==> #[trigger] tier_name(k) != name@,
            decreases count - i,
        {
            if same_text(rung(i).name, name) {
                assert(i >= 1 ==> tier_name(0) != name@);
                assert(i >= 2 ==> tier_name(1) != name@);
                assert(i >= 3 ==> tier_name(2) != name@);
                assert(i >= 4 ==> tier_name(3) != name@);
                return Some(i);
            }
            i = i + 1;
        }
        assert(tier_name(0) != name@ && tier_name(1) != name@);
        assert(tier_name(2) != name@ && tier_name(3) != name@);
        assert(count == 5 ==> tier_name(4) != name@);
        None
    }

    /// How this package is named in diagnostics.
    pub open spec fn label_text(self) -> Seq<char> {
        match self {
            Package::AppImage => "appimage"@,
            Package::Native => "native"@,
        }
    }

    /// How this package is named in diagnostics.
    pub fn label(self) -> (label: &'static str)
        ensures
            label@ == self.label_text(),
    {
        match self {
            Package::AppImage => "appimage",
            Package::Native => "native",
        }
    }
}

fn rung(index: usize) -> (tier: Tier)
    requires
        index < 5,
    ensures
        tier.name@ == tier_name(index as int),
        pairs(tier.vars@) == tier_vars(index as int),
{
    let mut vars: Vec<(&'static str, &'static str)> = Vec::new();
    let name: &'static str = match index {
        0 => "full-gpu",
        1 => {
            vars.push((FORCE_SHM, "1"));
            "shm-transport"
        },
        2 => {
            vars.push((FORCE_SHM, "1"));
            vars.push((CPU_RENDERING, "1"));
            "cpu-raster"
        },
        3 => {
            vars.push((DISABLE_DMABUF, "1"));
            vars.push((CPU_RENDERING, "1"));
            "no-accel"
        },
        _ => {
            vars.push((DISABLE_DMABUF, "1"));
            vars.push((CPU_RENDERING, "1"));
            vars.push((GDK_BACKEND, "x11"));
            "x11-fallback"
        },
    };
    assert(pairs(vars@) =~= tier_vars(index as int));
    Tier { name, vars }
}

/// Every rung is found again by its own name.
pub proof fn rungs_are_named_apart(package: Package, index: usize)
    requires
        index < package.rungs(),
    ensures
        package.named(tier_name(index as int)) == Some(index),
        package.profile(index as int).len() > 0,
{
    reveal_strlit("full-gpu");
    reveal_strlit("shm-transport");
    reveal_strlit("cpu-raster");
    reveal_strlit("no-accel");
    reveal_strlit("x11-fallback");
    assert(tier_name(2)[0] == 'c' && tier_name(2).len() == 10);
    assert(tier_name(0)[0] == 'f' && tier_name(1)[0] == 's');
    assert(tier_name(3)[0] == 'n' && tier_name(4)[0] == 'x');
}

// ── User opt-out ────────────────────────────────────────────────────────────

/// `key=value`.
pub open spec fn assignment(key: Seq<char>, value: Seq<char>) -> Seq<char> {
    key + "="@ + value
}

/// The assignments that `env` makes to `owned`, in the order of `owned`.
pub open spec fn present_in(owned: Seq<Seq<char>>, env: Map<Seq<char>, Seq<char>>) -> Seq<Seq<char>>
    decreases owned.len(),
{
    if owned.len() == 0 {
        Seq::empty()
    } else {
        let rest = present_in(owned.drop_last(), env);
        match value_of(env, owned.last()) {
            Some(value) => rest.push(assignment(owned.last(), value)),
            None => rest,
        }
    }
}

/// Owned variables the environment actually carries, as `KEY=VALUE`.
///
/// Presence is the test, not truthiness: `VAR=0` and `VAR=` are both genuine
/// user assignments and both disable recovery.
pub fn owned_present(package: Package, env: &Env) -> (present: Vec<String>)
    ensures
        texts(present@) == present_in(package.owned(), env@),
{
    let owned = package.owned_vars();
    let mut present: Vec<String> = Vec::new();
    let mut i: usize = 0;
    assert(texts(present@) =~= present_in(keys(owned@).take(0), env@));
    while i < owned.len()
        invariant
            i <= owned.len(),
            keys(owned@) == package.owned(),
            texts(present@) == present_in(keys(owned@).take(i as int), env@),
        decreases owned.len() - i,
    {
        let key: &'static str = owned[i];
        let ghost so_far = keys(owned@).take(i + 1);
        assert(so_far.drop_last() =~= keys(owned@).take(i as int));
        assert(so_far.last() == key@);
        if let Some(value) = env.get(key) {
            let line: String = key.to_owned().concat("=").concat(value.as_str());
            let ghost before = present@;
            present.push(line);
            assert(texts(present@) =~= texts(before).push(line@));
        }
        i = i + 1;
    }
    assert(keys(owned@).take(i as int) =~= keys(owned@));
    present
}

/// The ladder is five rungs from the fastest to the safest, of which an AppImage
/// has the first four. Past its end there is no name.
pub proof fn the_ladder_is_as_named(package: Package, index: usize)
    ensures
        tier_name(0) == "full-gpu"@ && tier_name(1) == "shm-transport"@,
        tier_name(2) == "cpu-raster"@ && tier_name(3) == "no-accel"@,
        tier_name(4) == "x11-fallback"@,
        index < package.rungs() <==> index <= 3 || (index == 4 && package is Native),
        package.terminal() + 1 == package.rungs(),
        package.profile(index as int) == (if index < package.rungs() {
            tier_name(index as int)
        } else {
            Seq::empty()
        }),
{
}

/// A name stands for the one rung that bears it, if the package's ladder has it.
pub proof fn a_name_stands_for_its_rung(package: Package, name: Seq<char>, index: usize)
    ensures
        package.named(name) == Some(index) <==> index < package.rungs() && tier_name(index as int)
            == name,
{
    if index < package.rungs() {
        rungs_are_named_apart(package, index);
    }
}

} // verus!
