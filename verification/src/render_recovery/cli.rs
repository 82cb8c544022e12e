//! The two renderer flags.
//!
//! Parsed from raw argv before the app starts, because the tier they select has
//! to be in the process environment before WebKit initializes.

use crate::text::{lemma_in_either, opt, same_text};
use vstd::prelude::*;

verus! {

/// Force the safest profile for this launch only. The ladder does not advance
/// and the persisted record is untouched.
pub const SAFE_RENDERING: &'static str = "--safe-rendering";

/// Delete the persisted profile and episode state, report it, and exit.
pub const RESET_RENDERING_MODE: &'static str = "--reset-rendering-mode";

#[derive(Clone, Copy, Debug, PartialEq, Eq, Structural)]
pub struct Flags {
    pub safe_rendering: bool,
    pub reset_rendering_mode: bool,
}

impl Default for Flags {
    fn default() -> (flags: Self)
        ensures
            flags == (Flags { safe_rendering: false, reset_rendering_mode: false }),
    {
        Flags { safe_rendering: false, reset_rendering_mode: false }
    }
}

/// Arguments as characters; one that is not valid Unicode is `None`.
pub open spec fn readable(args: Seq<Option<String>>) -> Seq<Option<Seq<char>>> {
    args.map_values(|arg: Option<String>| opt(arg))
}

/// A flag is set if its exact text is among the arguments, wherever it stands.
pub open spec fn flags_in(args: Seq<Option<Seq<char>>>) -> Flags {
    Flags {
        safe_rendering: args.contains(Some(SAFE_RENDERING@)),
        reset_rendering_mode: args.contains(Some(RESET_RENDERING_MODE@)),
    }
}

/// Find the two flags among the arguments.
pub fn parse(args: &Vec<Option<String>>) -> (flags: Flags)
    ensures
        flags == flags_in(readable(args@)),
{
    let mut flags = Flags::default();
    let mut i: usize = 0;
    let ghost all = readable(args@);
    assert(flags == flags_in(all.take(0)));
    while i < args.len()
        invariant
            i <= args.len(),
            all == readable(args@),
            flags == flags_in(all.take(i as int)),
        decreases args.len() - i,
    {
        assert(all[i as int] == opt(args@[i as int]));
        proof {
            lemma_one_more(all.take(i as int), all[i as int]);
            assert(all.take(i + 1) =~= all.take(i as int).push(all[i as int]));
            reveal_strlit("--safe-rendering");
            reveal_strlit("--reset-rendering-mode");
            assert(SAFE_RENDERING@.len() != RESET_RENDERING_MODE@.len());
        }
        if let Some(arg) = &args[i] {
            if same_text(arg.as_str(), SAFE_RENDERING) {
                flags.safe_rendering = true;
            } else if same_text(arg.as_str(), RESET_RENDERING_MODE) {
                flags.reset_rendering_mode = true;
            }
        }
        i = i + 1;
    }
    assert(all.take(i as int) =~= all);
    flags
}

proof fn lemma_one_more(args: Seq<Option<Seq<char>>>, last: Option<Seq<char>>)
    ensures
        forall|arg: Option<Seq<char>>|
            args.push(last).contains(arg) <==> args.contains(arg) || last == arg,
{
    assert forall|arg: Option<Seq<char>>|
        args.push(last).contains(arg) <==> args.contains(arg) || last == arg by {
        if args.push(last).contains(arg) {
            let i = choose|i: int| 0 <= i < args.push(last).len() && args.push(last)[i] == arg;
            if i < args.len() {
                assert(args[i] == arg);
            }
        }
        if args.contains(arg) {
            let i = choose|i: int| 0 <= i < args.len() && args[i] == arg;
            assert(args.push(last)[i] == arg);
        }
        if last == arg {
            assert(args.push(last)[args.len() as int] == arg);
        }
    }
}

/// The flags do not depend on where they stand: reordering the arguments, or
/// putting others around them, changes nothing.
pub proof fn flags_ignore_position(args: Seq<Option<Seq<char>>>, others: Seq<Option<Seq<char>>>)
    ensures
        args.to_multiset() == others.to_multiset() ==> flags_in(args) == flags_in(others),
        flags_in(args + others) == (Flags {
            safe_rendering: flags_in(args).safe_rendering || flags_in(others).safe_rendering,
            reset_rendering_mode: flags_in(args).reset_rendering_mode || flags_in(
                others,
            ).reset_rendering_mode,
        }),
{
    broadcast use vstd::seq_lib::group_to_multiset_ensures;

    let safe = Some(SAFE_RENDERING@);
    let reset = Some(RESET_RENDERING_MODE@);
    assert(args.contains(safe) <==> args.to_multiset().count(safe) > 0);
    assert(others.contains(safe) <==> others.to_multiset().count(safe) > 0);
    assert(args.contains(reset) <==> args.to_multiset().count(reset) > 0);
    assert(others.contains(reset) <==> others.to_multiset().count(reset) > 0);
    lemma_in_either(args, others, safe);
    lemma_in_either(args, others, reset);
}

/// A flag is set exactly if one of the arguments is its text, letter for letter.
pub proof fn a_flag_is_an_argument(args: Seq<Option<Seq<char>>>)
    ensures
        flags_in(args).safe_rendering <==> exists|i: int|
            0 <= i < args.len() && #[trigger] args[i] == Some("--safe-rendering"@),
        flags_in(args).reset_rendering_mode <==> exists|i: int|
            0 <= i < args.len() && #[trigger] args[i] == Some("--reset-rendering-mode"@),
{
}

} // verus!
