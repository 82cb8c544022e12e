//! The pure rules: profiles, records, the bus, decisions and the child's
//! environment.

use buzz::render_recovery::classify::{correlate, decide, Decision, Ownership};
use buzz::render_recovery::cli::{self, Flags};
use buzz::render_recovery::dbus::{
    observe, single_instance_name, Observation, Owner, OwnerReply, NAME_HAS_NO_OWNER,
};
use buzz::render_recovery::episode::{
    advance, advances_ladder, fresh, may_advance, prepare, profile_name, retry_of, Advance,
    Episode, Termination, CRASH_ELIGIBILITY_WINDOW,
};
use buzz::render_recovery::launcher::{
    exact_env, probe_name, EnvChange, Handoff, Refusal, Tag, EPISODE, FORCED, GENERATION, PROFILE,
};
use buzz::render_recovery::profiles::{owned_present, Env, Package};
use buzz::render_recovery::protocol::{mint, Reply};
use buzz::render_recovery::session::{conflict_message, reset_report, Disabled};
use buzz::render_recovery::state::{
    claim_file, claim_outcome, is_claim_of, Claim, ClaimAttempt, Phase, Record, WriteFault, CLAIMS,
    DIR, RECORD, RETRY_GENERATION,
};
use buzz::text::{decimal, join, parse_u32, same_text};

const TOKEN: &str = "a-token";
const VERSION: &str = "1.2.3";

fn record(phase: Phase, generation: u32, tier: usize) -> Record {
    Record::new(
        phase,
        TOKEN,
        generation,
        profile_name(Package::Native, tier),
        tier,
        VERSION,
    )
}

fn env_from(vars: &[(&str, &str)]) -> Env {
    let mut env = Env::new();
    for (key, value) in vars {
        env.set(key.to_string(), value.to_string());
    }
    env
}

fn args(list: &[&str]) -> Vec<Option<String>> {
    list.iter().map(|arg| Some(arg.to_string())).collect()
}

fn owned(unique_name: &str, pid: Option<u32>) -> Observation {
    Observation::Owned(Owner {
        unique_name: unique_name.to_string(),
        pid,
    })
}

// ── Text ─────────────────────────────────────────────────────────────────────

#[test]
fn numerals_read_back() {
    for value in [0_u32, 7, 10, 99, 100, 4_294_967_295] {
        let text = decimal(value as usize);
        assert_eq!(text, value.to_string());
        assert_eq!(parse_u32(&text), Some(value));
    }
}

#[test]
fn numbers_parse_as_std_parses_them() {
    for text in [
        "", "+", "-1", "+7", "007", "4294967296", "4294967295", "1 ", " 1", "1x", "x", "٣", "+-1",
        "99999999999999999999999999",
    ] {
        assert_eq!(parse_u32(text), text.parse::<u32>().ok(), "{text}");
    }
}

#[test]
fn texts_join_and_compare() {
    let list: Vec<String> = ["a", "b", "c"].iter().map(|s| s.to_string()).collect();
    assert_eq!(join(&list, ", "), "a, b, c");
    assert_eq!(join(&Vec::new(), ", "), "");
    assert!(same_text("é", "é"));
    assert!(!same_text("e", "é"));
}

// ── Flags ────────────────────────────────────────────────────────────────────

#[test]
fn test_the_renderer_flags_parse_independently_of_position() {
    let flags = cli::parse(&args(&["buzz://channel/1", "--safe-rendering"]));
    assert!(flags.safe_rendering);
    assert!(!flags.reset_rendering_mode);

    let none = cli::parse(&args(&["--safe-renderingX"]));
    assert!(!none.safe_rendering);
}

#[test]
fn flags_stand_anywhere_and_add_up() {
    let both = Flags {
        safe_rendering: true,
        reset_rendering_mode: true,
    };
    assert_eq!(cli::parse(&args(&["--reset-rendering-mode", "x", "--safe-rendering"])), both);
    assert_eq!(cli::parse(&args(&["--safe-rendering", "--reset-rendering-mode", "x"])), both);
    assert_eq!(cli::parse(&Vec::new()), Flags::default());
    let unreadable = vec![None, Some("--reset-rendering-mode".to_string())];
    assert!(cli::parse(&unreadable).reset_rendering_mode);
    assert!(!cli::parse(&unreadable).safe_rendering);
}

// ── Profiles ─────────────────────────────────────────────────────────────────

#[test]
fn the_package_decides_ladder_and_variables() {
    assert_eq!(Package::detect(&env_from(&[])), Package::Native);
    assert_eq!(Package::detect(&env_from(&[("APPIMAGE", "")])), Package::AppImage);
    assert_eq!(Package::AppImage.terminal_tier(), 3);
    assert_eq!(Package::Native.terminal_tier(), 4);
    assert_eq!(Package::AppImage.tiers().len(), 4);
    assert_eq!(Package::Native.tiers().len(), 5);
    assert_eq!(Package::AppImage.label(), "appimage");
    assert_eq!(Package::Native.label(), "native");
    let webkit = vec![
        "WEBKIT_DMABUF_RENDERER_FORCE_SHM",
        "WEBKIT_DISABLE_DMABUF_RENDERER",
        "WEBKIT_SKIA_ENABLE_CPU_RENDERING",
        "WEBKIT_DISABLE_COMPOSITING_MODE",
    ];
    assert_eq!(Package::AppImage.owned_vars(), webkit);
    let mut native = webkit.clone();
    native.push("GDK_BACKEND");
    assert_eq!(Package::Native.owned_vars(), native);
}

#[test]
fn the_rungs_are_as_written() {
    let rung = |index: usize| Package::Native.tier(index).expect("a rung");
    assert_eq!(rung(0).name, "full-gpu");
    assert_eq!(rung(0).vars, Vec::new());
    assert_eq!(rung(1).name, "shm-transport");
    assert_eq!(rung(1).vars, vec![("WEBKIT_DMABUF_RENDERER_FORCE_SHM", "1")]);
    assert_eq!(rung(2).name, "cpu-raster");
    assert_eq!(
        rung(2).vars,
        vec![
            ("WEBKIT_DMABUF_RENDERER_FORCE_SHM", "1"),
            ("WEBKIT_SKIA_ENABLE_CPU_RENDERING", "1")
        ]
    );
    assert_eq!(rung(3).name, "no-accel");
    assert_eq!(
        rung(3).vars,
        vec![
            ("WEBKIT_DISABLE_DMABUF_RENDERER", "1"),
            ("WEBKIT_SKIA_ENABLE_CPU_RENDERING", "1")
        ]
    );
    assert_eq!(rung(4).name, "x11-fallback");
    assert_eq!(
        rung(4).vars,
        vec![
            ("WEBKIT_DISABLE_DMABUF_RENDERER", "1"),
            ("WEBKIT_SKIA_ENABLE_CPU_RENDERING", "1"),
            ("GDK_BACKEND", "x11")
        ]
    );
    assert_eq!(Package::Native.tier(5), None);
    assert_eq!(Package::AppImage.tier(4), None);
}

#[test]
fn every_rung_is_found_by_its_name() {
    for package in [Package::AppImage, Package::Native] {
        for (index, tier) in package.tiers().iter().enumerate() {
            assert_eq!(package.tier_named(tier.name), Some(index));
            assert_eq!(profile_name(package, index), tier.name);
        }
        assert_eq!(package.tier_named("no-such-profile"), None);
        assert_eq!(package.tier_named(""), None);
        assert_eq!(profile_name(package, 9), "");
    }
    assert_eq!(Package::AppImage.tier_named("x11-fallback"), None);
}

#[test]
fn presence_is_the_test_not_truthiness() {
    let env = env_from(&[
        ("GDK_BACKEND", "wayland"),
        ("WEBKIT_DISABLE_COMPOSITING_MODE", ""),
        ("WEBKIT_DMABUF_RENDERER_FORCE_SHM", "0"),
    ]);
    assert_eq!(
        owned_present(Package::Native, &env),
        vec![
            "WEBKIT_DMABUF_RENDERER_FORCE_SHM=0".to_string(),
            "WEBKIT_DISABLE_COMPOSITING_MODE=".to_string(),
            "GDK_BACKEND=wayland".to_string()
        ]
    );
    assert_eq!(
        owned_present(Package::AppImage, &env_from(&[("GDK_BACKEND", "x11")])),
        Vec::<String>::new()
    );
}

#[test]
fn the_last_assignment_counts() {
    let mut env = env_from(&[("KEY", "1"), ("OTHER", "x")]);
    env.set("KEY".to_string(), "2".to_string());
    assert_eq!(env.get("KEY"), Some("2".to_string()));
    assert_eq!(env.get("OTHER"), Some("x".to_string()));
    assert_eq!(env.get("NONE"), None);
    assert!(env.has("KEY"));
    assert!(!env.has("key"));
}

// ── Records and claims ───────────────────────────────────────────────────────

#[test]
fn a_new_record_names_no_child() {
    let new = record(Phase::Prepared, 1, 2);
    assert_eq!(new.phase, Phase::Prepared);
    assert_eq!(new.token, TOKEN);
    assert_eq!(new.generation, 1);
    assert_eq!(new.profile, "cpu-raster");
    assert_eq!(new.tier, 2);
    assert_eq!(new.version, VERSION);
    assert_eq!((new.pid, new.unique_name.clone(), new.bus_id.clone()), (None, None, None));
    assert_eq!(new.clone(), new);
}

#[test]
fn state_lives_where_it_always_did() {
    assert_eq!((DIR, RECORD, CLAIMS), ("render-recovery", "episode.json", "claims"));
    assert_eq!(RETRY_GENERATION, 1);
}

#[test]
fn claim_files_are_named_apart() {
    assert_eq!(claim_file("tok", 0), "tok-g0");
    assert_eq!(claim_file("tok", 4_294_967_295), "tok-g4294967295");
    let names = [
        claim_file("a", 1),
        claim_file("a", 11),
        claim_file("a-g1", 1),
        claim_file("b", 1),
    ];
    for (i, name) in names.iter().enumerate() {
        for other in &names[i + 1..] {
            assert_ne!(name, other);
        }
    }
}

#[test]
fn pruning_keeps_exactly_the_token_that_stays() {
    assert!(is_claim_of("tok-g0", "tok"));
    assert!(is_claim_of("tok-g12", "tok"));
    assert!(!is_claim_of("tok-g", "tok"));
    assert!(!is_claim_of("tok-gx", "tok"));
    assert!(!is_claim_of("tok-g1-g0", "tok"));
    assert!(is_claim_of("tok-g1-g0", "tok-g1"));
    assert!(!is_claim_of("other-g0", "tok"));
    assert!(!is_claim_of("", "tok"));
}

#[test]
fn a_claim_is_won_by_creating_its_file() {
    assert_eq!(claim_outcome(ClaimAttempt::Created), Claim::Won);
    assert_eq!(claim_outcome(ClaimAttempt::Exists), Claim::Lost);
    assert_eq!(
        claim_outcome(ClaimAttempt::NoDirectory {
            path: "/c".to_string(),
            error: "denied".to_string()
        }),
        Claim::Failed("create /c: denied".to_string())
    );
    assert_eq!(
        claim_outcome(ClaimAttempt::Refused {
            path: "/c/t-g0".to_string(),
            error: "full".to_string()
        }),
        Claim::Failed("claim /c/t-g0: full".to_string())
    );
}

#[test]
fn write_faults_say_what_failed() {
    let path = || "/d/r".to_string();
    let error = || "boom".to_string();
    let texts = [
        (WriteFault::Create { path: path(), error: error() }, "create /d/r: boom"),
        (WriteFault::Encode { error: error() }, "encode record: boom"),
        (WriteFault::Open { path: path(), error: error() }, "open /d/r: boom"),
        (WriteFault::Write { path: path(), error: error() }, "write /d/r: boom"),
        (WriteFault::Commit { path: path(), error: error() }, "commit /d/r: boom"),
    ];
    for (fault, text) in texts {
        assert_eq!(fault.message(), text);
    }
}

#[test]
fn phases_are_ordered() {
    let order = [
        Phase::Prepared,
        Phase::Started,
        Phase::Owned,
        Phase::Confirmed,
        Phase::Exhausted,
    ];
    for (i, phase) in order.iter().enumerate() {
        for (j, other) in order.iter().enumerate() {
            assert_eq!(phase.outranks(*other), i > j);
        }
    }
}

// ── Episodes ─────────────────────────────────────────────────────────────────

#[test]
fn only_an_early_crash_counts() {
    assert_eq!(CRASH_ELIGIBILITY_WINDOW, 5_000_000_000);
    assert!(advances_ladder(Termination::Crashed, 0));
    assert!(advances_ladder(Termination::Crashed, 5_000_000_000));
    assert!(!advances_ladder(Termination::Crashed, 5_000_000_001));
    assert!(!advances_ladder(Termination::Other, 0));
}

#[test]
fn a_crash_goes_down_one_rung() {
    assert_eq!(advance(Package::Native, 0), Advance::Tier(1));
    assert_eq!(advance(Package::Native, 3), Advance::Tier(4));
    assert_eq!(advance(Package::Native, 4), Advance::Exhausted);
    assert_eq!(advance(Package::AppImage, 2), Advance::Tier(3));
    assert_eq!(advance(Package::AppImage, 3), Advance::Exhausted);
    assert_eq!(advance(Package::AppImage, usize::MAX), Advance::Exhausted);
}

#[test]
fn a_fresh_episode_has_a_random_token() {
    let is_token = |token: &str| {
        token.len() == 36
            && token.char_indices().all(|(i, c)| match i {
                8 | 13 | 18 | 23 => c == '-',
                14 => c == '4',
                19 => matches!(c, '8' | '9' | 'a' | 'b'),
                _ => c.is_ascii_digit() || ('a'..='f').contains(&c),
            })
    };
    for _ in 0..50 {
        let episode = fresh();
        assert!(is_token(&episode.token), "{}", episode.token);
        assert_eq!(episode.generation, 0);
    }
    assert_ne!(fresh().token, fresh().token);
    let Reply::Minted(minted) = mint() else {
        panic!("a minted episode");
    };
    assert!(is_token(&minted.token));
}

#[test]
fn attempts_are_prepared_and_retried() {
    let episode = Episode {
        token: TOKEN.to_string(),
        generation: 0,
    };
    let prepared = prepare(&episode, Package::Native, 2, VERSION);
    assert_eq!(prepared, record(Phase::Prepared, 0, 2));
    assert_eq!(
        retry_of(&prepared),
        Episode {
            token: TOKEN.to_string(),
            generation: 1
        }
    );
    assert_eq!(prepare(&episode, Package::AppImage, 4, VERSION).profile, "");
}

#[test]
fn test_a_receipt_requires_a_current_episode_and_a_forward_phase() {
    let current = record(Phase::Owned, 0, 1);
    let episode = Episode {
        token: TOKEN.to_string(),
        generation: 0,
    };

    assert!(may_advance(Some(&current), &episode, Phase::Confirmed));
    // Backwards and sideways are both rejected: a repeated callback has nothing
    // to add, and an out-of-order one must not undo a later phase.
    assert!(!may_advance(Some(&current), &episode, Phase::Owned));
    assert!(!may_advance(Some(&current), &episode, Phase::Started));
    // Another token's or generation's receipt is never current here.
    assert!(!may_advance(
        Some(&current),
        &Episode {
            token: "another-token".to_string(),
            generation: 0
        },
        Phase::Confirmed
    ));
    assert!(!may_advance(
        Some(&current),
        &Episode {
            token: TOKEN.to_string(),
            generation: 1
        },
        Phase::Confirmed
    ));
    // A cleared record is not something a receipt may recreate: the record a
    // receipt belongs to is written by the parent before the child exists.
    assert!(!may_advance(None, &episode, Phase::Confirmed));
}

#[test]
fn test_the_exhausted_phase_is_terminal_against_a_late_receipt() {
    // `Exhausted` outranks every other phase, so the attempt that exhausted the
    // ladder cannot reopen it with a receipt that arrives afterwards.
    let exhausted = record(Phase::Exhausted, 0, 3);
    let episode = Episode {
        token: TOKEN.to_string(),
        generation: 0,
    };
    for phase in [Phase::Started, Phase::Owned, Phase::Confirmed] {
        assert!(!may_advance(Some(&exhausted), &episode, phase));
    }
}

// ── The bus ──────────────────────────────────────────────────────────────────

#[test]
fn only_the_bus_can_call_a_name_free() {
    let refused = |name: &str| OwnerReply::Refused {
        name: name.to_string(),
        detail: "why".to_string(),
    };
    assert_eq!(NAME_HAS_NO_OWNER, "org.freedesktop.DBus.Error.NameHasNoOwner");
    assert_eq!(observe(refused(NAME_HAS_NO_OWNER)), Observation::Free);
    assert_eq!(
        observe(refused("org.freedesktop.DBus.Error.AccessDenied")),
        Observation::Unavailable("GetNameOwner: why".to_string())
    );
    assert_eq!(
        observe(OwnerReply::NoBus("no socket".to_string())),
        Observation::Unavailable("session bus: no socket".to_string())
    );
    assert_eq!(
        observe(OwnerReply::Malformed("not a string".to_string())),
        Observation::Unavailable("GetNameOwner reply: not a string".to_string())
    );
    assert_eq!(
        observe(OwnerReply::Failed("timeout".to_string())),
        Observation::Unavailable("GetNameOwner: timeout".to_string())
    );
    assert_eq!(
        observe(OwnerReply::Owner(Owner {
            unique_name: ":1.4".to_string(),
            pid: Some(9)
        })),
        owned(":1.4", Some(9))
    );
    assert_eq!(single_instance_name("xyz.buzz"), "xyz.buzz.SingleInstance");
}

#[test]
fn a_name_is_probed_before_a_spawn() {
    assert_eq!(probe_name(&Observation::Free), None);
    assert_eq!(
        probe_name(&owned(":1.7", Some(42))),
        Some(Refusal::NameNotFree("owned by :1.7 (pid Some(42))".to_string()))
    );
    assert_eq!(
        probe_name(&owned(":1.7", None)),
        Some(Refusal::NameNotFree("owned by :1.7 (pid None)".to_string()))
    );
    assert_eq!(
        probe_name(&Observation::Unavailable("session bus: gone".to_string())),
        Some(Refusal::NameNotFree("session bus: gone".to_string()))
    );
}

// ── Decisions ────────────────────────────────────────────────────────────────

#[test]
fn owners_are_correlated_by_what_the_phase_records() {
    let mut started = record(Phase::Started, 0, 1);
    assert_eq!(correlate(&started, &Observation::Free, None), Ownership::Absent);
    assert_eq!(
        correlate(&started, &Observation::Unavailable("x".to_string()), None),
        Ownership::Uncorrelatable
    );
    assert_eq!(correlate(&started, &owned(":1.1", Some(7)), None), Ownership::Uncorrelatable);
    started.pid = Some(7);
    assert_eq!(correlate(&started, &owned(":1.1", Some(7)), None), Ownership::Correlated);
    assert_eq!(correlate(&started, &owned(":1.1", Some(8)), None), Ownership::Mismatched);
    assert_eq!(correlate(&started, &owned(":1.1", None), None), Ownership::Uncorrelatable);

    let mut held = record(Phase::Owned, 0, 1);
    held.pid = Some(7);
    assert_eq!(correlate(&held, &owned(":1.1", Some(7)), Some("bus")), Ownership::Uncorrelatable);
    held.unique_name = Some(":1.1".to_string());
    held.bus_id = Some("bus".to_string());
    assert_eq!(correlate(&held, &owned(":1.1", None), Some("bus")), Ownership::Correlated);
    assert_eq!(correlate(&held, &owned(":1.2", Some(7)), Some("bus")), Ownership::Mismatched);
}

#[test]
fn a_receipt_from_another_bus_never_correlates() {
    let mut confirmed = record(Phase::Confirmed, 0, 1);
    confirmed.unique_name = Some(":1.4".to_string());
    confirmed.bus_id = Some("old-bus".to_string());
    for bus in [Some("new-bus"), None] {
        assert_eq!(
            correlate(&confirmed, &owned(":1.4", Some(1)), bus),
            Ownership::Uncorrelatable
        );
    }
    confirmed.bus_id = None;
    assert_eq!(correlate(&confirmed, &owned(":1.4", None), None), Ownership::Uncorrelatable);
}

#[test]
fn an_upgrade_discards_whatever_was_recorded() {
    for phase in [
        Phase::Prepared,
        Phase::Started,
        Phase::Owned,
        Phase::Confirmed,
        Phase::Exhausted,
    ] {
        assert_eq!(
            decide(&record(phase, 0, 3), &Observation::Free, None, "2.0.0", true),
            Decision::DiscardAndBaseline {
                reason: "app version changed since the record was written"
            }
        );
    }
}

#[test]
fn an_unclaimed_attempt_gets_one_retry() {
    let free = Observation::Free;
    assert_eq!(
        decide(&record(Phase::Prepared, 0, 2), &free, None, VERSION, false),
        Decision::RetrySameTier {
            reason: "prepared attempt was never claimed",
            tier: 2
        }
    );
    assert_eq!(
        decide(&record(Phase::Prepared, 1, 2), &free, None, VERSION, false),
        Decision::AdvanceOrStop {
            reason: "prepared attempt was never claimed and the retry is spent",
            tier: 2
        }
    );
    assert_eq!(
        decide(&record(Phase::Exhausted, 0, 4), &free, None, VERSION, false),
        Decision::StopExhausted { tier: 4 }
    );
}

#[test]
fn a_started_attempt_is_in_flight_or_failed() {
    let mut started = record(Phase::Started, 0, 1);
    started.pid = Some(7);
    let on = |observation: &Observation, alive: bool| {
        decide(&started, observation, None, VERSION, alive)
    };
    assert_eq!(on(&owned(":1.1", Some(7)), false), Decision::Defer("recovery child owns the name"));
    assert_eq!(
        on(&owned(":1.1", Some(8)), true),
        Decision::AdvanceOrStop {
            reason: "a different process owns the name: handoff failed",
            tier: 1
        }
    );
    assert_eq!(
        on(&owned(":1.1", None), true),
        Decision::AdvanceOrStop {
            reason: "the name has an owner that cannot be correlated: handoff failed",
            tier: 1
        }
    );
    assert_eq!(
        on(&Observation::Free, true),
        Decision::Defer("recovery child is alive in the pre-ownership interval")
    );
    assert_eq!(
        on(&Observation::Free, false),
        Decision::AdvanceOrStop {
            reason: "recovery child is gone before acquiring the name",
            tier: 1
        }
    );
    // Without a pid there is nobody to be alive.
    assert_eq!(
        decide(&record(Phase::Started, 0, 1), &Observation::Free, None, VERSION, true),
        decide(&record(Phase::Started, 0, 1), &Observation::Free, None, VERSION, false)
    );
}

#[test]
fn an_owned_or_confirmed_tier_defers_only_to_its_own_connection() {
    let with_identity = |phase: Phase| {
        let mut record = record(phase, 0, 2);
        record.unique_name = Some(":1.5".to_string());
        record.bus_id = Some("bus".to_string());
        record
    };
    let held = with_identity(Phase::Owned);
    let on = |record: &Record, observation: Observation| {
        decide(record, &observation, Some("bus"), VERSION, true)
    };
    assert_eq!(
        on(&held, owned(":1.5", None)),
        Decision::Defer("recovery child still owns the name")
    );
    assert_eq!(
        on(&held, owned(":1.6", None)),
        Decision::AdvanceOrStop {
            reason: "the recorded owner was replaced by another process",
            tier: 2
        }
    );
    assert_eq!(
        on(&held, Observation::Unavailable("down".to_string())),
        Decision::AdvanceOrStop {
            reason: "the name owner cannot be correlated to the recorded child",
            tier: 2
        }
    );
    assert_eq!(
        on(&held, Observation::Free),
        Decision::AdvanceOrStop {
            reason: "the recorded owner released the name",
            tier: 2
        }
    );
    let confirmed = with_identity(Phase::Confirmed);
    assert_eq!(
        on(&confirmed, owned(":1.5", None)),
        Decision::Defer("the confirmed instance is still running")
    );
    for observation in [
        Observation::Free,
        owned(":1.6", None),
        Observation::Unavailable("down".to_string()),
    ] {
        assert_eq!(on(&confirmed, observation), Decision::ReuseProfile { tier: 2 });
    }
}

// ── Tags and the child's environment ─────────────────────────────────────────

#[test]
fn tags_are_read_whole_or_not_at_all() {
    assert_eq!(Tag::read(&env_from(&[])), None);
    let full = [(PROFILE, "no-accel"), (EPISODE, "tok"), (GENERATION, "1")];
    assert_eq!(
        Tag::read(&env_from(&full)),
        Some(Tag {
            episode: Some(Episode {
                token: "tok".to_string(),
                generation: 1
            }),
            profile: "no-accel".to_string()
        })
    );
    for missing in 0..3 {
        let mut rest = full.to_vec();
        rest.remove(missing);
        assert_eq!(Tag::read(&env_from(&rest)), None);
    }
    assert_eq!(
        Tag::read(&env_from(&[(PROFILE, "p"), (EPISODE, ""), (GENERATION, "0")])),
        None
    );
    assert_eq!(
        Tag::read(&env_from(&[(PROFILE, "p"), (EPISODE, "t"), (GENERATION, "first")])),
        None
    );
    assert_eq!(
        Tag::read(&env_from(&[(PROFILE, "p"), (FORCED, ""), (EPISODE, "t"), (GENERATION, "0")])),
        Some(Tag {
            episode: None,
            profile: "p".to_string()
        })
    );
}

fn child_of(
    env: &[(&str, &str)],
    package: Package,
    tier: usize,
    tag: &Tag,
) -> Vec<(String, String)> {
    let mut vars: Vec<(String, String)> = env
        .iter()
        .map(|(key, value)| (key.to_string(), value.to_string()))
        .collect();
    for change in exact_env(package, &package.tier(tier).expect("a rung"), tag) {
        match change {
            EnvChange::Remove(key) => vars.retain(|(name, _)| *name != key),
            EnvChange::Assign(key, value) => {
                vars.retain(|(name, _)| *name != key);
                vars.push((key, value));
            }
        }
    }
    vars
}

fn env_of(vars: &[(String, String)]) -> Env {
    let mut env = Env::new();
    for (key, value) in vars {
        env.set(key.clone(), value.clone());
    }
    env
}

#[test]
fn a_child_environment_is_exactly_its_tier() {
    let tag = Tag {
        episode: Some(Episode {
            token: TOKEN.to_string(),
            generation: 1,
        }),
        profile: "cpu-raster".to_string(),
    };
    let parent = [
        ("PATH", "/bin"),
        ("WEBKIT_DISABLE_DMABUF_RENDERER", "1"),
        ("WEBKIT_DISABLE_COMPOSITING_MODE", "1"),
        ("GDK_BACKEND", "wayland"),
        (FORCED, "1"),
    ];
    let mut child = child_of(&parent, Package::Native, 2, &tag);
    child.sort();
    let expected: Vec<(String, String)> = [
        (EPISODE, TOKEN),
        (GENERATION, "1"),
        (PROFILE, "cpu-raster"),
        ("PATH", "/bin"),
        ("WEBKIT_DMABUF_RENDERER_FORCE_SHM", "1"),
        ("WEBKIT_SKIA_ENABLE_CPU_RENDERING", "1"),
    ]
    .iter()
    .map(|(key, value)| (key.to_string(), value.to_string()))
    .collect();
    assert_eq!(child, expected);
    // On AppImage the backend is not this package's to remove.
    let child = child_of(&parent, Package::AppImage, 0, &tag);
    assert!(child.contains(&("GDK_BACKEND".to_string(), "wayland".to_string())));
}

#[test]
fn a_child_reads_the_tag_it_was_given() {
    let forced = Tag {
        episode: None,
        profile: "no-accel".to_string(),
    };
    let claimed = Tag {
        episode: Some(Episode {
            token: TOKEN.to_string(),
            generation: 4_000_000_000,
        }),
        profile: "no-accel".to_string(),
    };
    let parent = [(FORCED, "1"), (EPISODE, "stale"), (GENERATION, "7")];
    for tag in [forced, claimed] {
        let child = child_of(&parent, Package::Native, 3, &tag);
        assert_eq!(Tag::read(&env_of(&child)), Some(tag));
    }
}

// ── Words for the user ───────────────────────────────────────────────────────

#[test]
fn refusals_say_what_stood_in_the_way() {
    let detail = || "because".to_string();
    for (refusal, text) in [
        (Refusal::NameNotFree(detail()), "single-instance name not free: because"),
        (Refusal::NoBinary(detail()), "cannot locate the app binary: because"),
        (Refusal::SpawnFailed(detail()), "spawn failed: because"),
        (Refusal::StateNotDurable(detail()), "episode record not durable: because"),
        (Refusal::NoTier(detail()), "no such renderer tier: because"),
    ] {
        assert_eq!(refusal.message(), text);
        assert!(Handoff::RefusedAfterRelease(refusal).refused());
    }
    assert!(Handoff::RefusedBeforeRelease(Refusal::NoTier(detail())).refused());
    assert!(!Handoff::Launched.refused());
}

#[test]
fn recovery_says_why_it_is_off() {
    let vars = vec!["A=0".to_string(), "B=".to_string()];
    assert_eq!(
        Disabled::UserEnv(vars).message(),
        "A=0, B= set in the environment; renderer recovery leaves user configuration alone"
    );
    assert_eq!(Disabled::NoStateDir("no dir".to_string()).message(), "no dir");
}

#[test]
fn a_conflict_names_what_is_set_and_what_to_unset() {
    let present = vec!["KEY=a=b".to_string(), "OTHER=".to_string(), "BARE".to_string()];
    assert_eq!(
        conflict_message(&present),
        "--safe-rendering cannot be applied: KEY=a=b, OTHER=, BARE already set in the \
         environment. Either unset KEY, OTHER, BARE and run --safe-rendering again, or keep \
         that environment and drop the flag."
    );
}

#[test]
fn a_reset_reports_what_it_found() {
    assert_eq!(
        reset_report(true),
        "Cleared the persisted renderer profile and episode state."
    );
    assert_eq!(
        reset_report(false),
        "No persisted renderer profile or episode state to clear."
    );
}
