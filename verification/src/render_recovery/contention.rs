//! What holds when any number of processes run at once.
//!
//! The processes share one record, one directory of claims and one lock. Each
//! runs its own task; between any two replies to one of them, every other may
//! have had its turn, and any of them may die at any point, which gives its lock
//! back. The laws here hold in every world that such a history can lead to.

use super::claim::started;
use super::episode::{is_current, Episode};
use super::hand_off::Stage;
use super::protocol::{Reply, Request, Turn};
use super::receipt::attempt_of;
use super::run::{
    begins, fits, hand_off_in, lemma_guards, lemma_start_fits, lemma_step_fits, outset, told,
    Story,
};
use super::session::Booting;
use super::state::{Claim, Record};
use super::task::{Task, TaskModel};
use vstd::prelude::*;

verus! {

/// The shared state, and every process with its task and what it knows.
pub struct World {
    pub holder: Option<int>,
    pub disk: Option<Record<Seq<char>>>,
    pub claims: Set<Episode<Seq<char>>>,
    pub runs: Map<int, (TaskModel, Story)>,
}

/// Whether `reply` is a true answer to process `p`.
///
/// A lock is granted only if nobody holds it, a read gives the record as it is,
/// and a claim is won exactly if it was not taken. Anything may fail.
pub open spec fn truthful(
    world: World,
    p: int,
    request: Request<Seq<char>>,
    reply: Reply<Seq<char>>,
) -> bool {
    match (request, reply) {
        (Request::Lock, Reply::Locked(Ok(()))) => world.holder is None,
        (Request::Read, Reply::Found(found)) => found == world.disk,
        (Request::Claim(episode), Reply::Claimed(Claim::Won)) => !world.claims.contains(episode),
        (Request::Claim(episode), Reply::Claimed(Claim::Lost)) => world.claims.contains(episode),
        _ => true,
    }
}

/// The shared state once a request has been answered.
pub open spec fn carried_out(
    world: World,
    p: int,
    request: Request<Seq<char>>,
    reply: Reply<Seq<char>>,
) -> World {
    match (request, reply) {
        (Request::Lock, Reply::Locked(Ok(()))) => World { holder: Some(p), ..world },
        (Request::Unlock, Reply::Done) => World { holder: None, ..world },
        (Request::Write(record), Reply::Written(Ok(()))) => World { disk: Some(record), ..world },
        (Request::Clear, Reply::Cleared(_)) => World {
            disk: None,
            claims: Set::empty(),
            ..world
        },
        (Request::PruneClaims { token }, Reply::Done) => World {
            claims: world.claims.filter(|episode: Episode<Seq<char>>| episode.token == token),
            ..world
        },
        (Request::Claim(episode), Reply::Claimed(Claim::Won)) => World {
            claims: world.claims.insert(episode),
            ..world
        },
        _ => world,
    }
}

/// One thing that happens to process `p`.
pub enum Event {
    /// It starts a task.
    Starts(TaskModel),
    /// It gets a reply to what its task asks.
    Replied(Reply<Seq<char>>),
    /// It ends or is killed.
    Dies,
}

/// Whether `event` can happen to process `p`.
pub open spec fn possible(world: World, p: int, event: Event) -> bool {
    match event {
        Event::Starts(start) => begins(start) && !world.runs.dom().contains(p),
        Event::Replied(reply) => {
            &&& world.runs.dom().contains(p)
            &&& world.runs[p].0 matches Turn::Ask(task)
            &&& truthful(world, p, task.asks(), reply)
        },
        Event::Dies => world.runs.dom().contains(p),
    }
}

/// The world after `event` has happened to process `p`.
pub open spec fn after(world: World, p: int, event: Event) -> World {
    match event {
        Event::Starts(start) => World {
            runs: world.runs.insert(p, (start, outset(world.disk))),
            ..world
        },
        Event::Replied(reply) => match world.runs[p].0 {
            Turn::Ask(task) => {
                let next = (task.next(reply), told(world.runs[p].1, task.asks(), reply));
                World {
                    runs: world.runs.insert(p, next),
                    ..carried_out(world, p, task.asks(), reply)
                }
            },
            Turn::Done(_) => world,
        },
        Event::Dies => World {
            holder: if world.holder == Some(p) {
                None
            } else {
                world.holder
            },
            runs: world.runs.remove(p),
            ..world
        },
    }
}

/// A world in which nothing runs yet, whatever earlier processes left behind.
pub open spec fn quiet(world: World) -> bool {
    world.holder is None && world.runs == Map::<int, (TaskModel, Story)>::empty()
}

/// The world after a history of events, each of which was possible when it came.
pub open spec fn reached(origin: World, history: Seq<(int, Event)>) -> Option<World>
    decreases history.len(),
{
    if history.len() == 0 {
        Some(origin)
    } else {
        let (p, event) = history.last();
        match reached(origin, history.drop_last()) {
            Some(world) => if possible(world, p, event) {
                Some(after(world, p, event))
            } else {
                None
            },
            None => None,
        }
    }
}

/// What holds of one process at every point.
spec fn sound(world: World, p: int) -> bool {
    let (turn, story) = world.runs[p];
    &&& fits(turn, story)
    &&& story.held <==> world.holder == Some(p)
    &&& story.held && story.seen is Some ==> story.seen == Some(world.disk)
}

spec fn all_sound(world: World) -> bool {
    &&& forall|p: int| world.runs.dom().contains(p) ==> #[trigger] sound(world, p)
    &&& world.holder matches Some(p) ==> world.runs.dom().contains(p)
}

proof fn lemma_event_keeps_sound(world: World, p: int, event: Event)
    requires
        all_sound(world),
        possible(world, p, event),
    ensures
        all_sound(after(world, p, event)),
{
    let next = after(world, p, event);
    match event {
        Event::Starts(start) => {
            lemma_start_fits(start, world.disk);
        },
        Event::Replied(reply) => {
            assert(sound(world, p));
            if let Turn::Ask(task) = world.runs[p].0 {
                lemma_step_fits(task, world.runs[p].1, reply);
                lemma_guards(task, world.runs[p].1);
            }
        },
        Event::Dies => {},
    }
    assert forall|q: int| next.runs.dom().contains(q) implies #[trigger] sound(next, q) by {
        if q != p {
            assert(sound(world, q));
        } else {
            assert(world.runs.dom().contains(p) ==> sound(world, p));
        }
    }
}

proof fn lemma_reached_is_sound(origin: World, history: Seq<(int, Event)>)
    requires
        quiet(origin),
    ensures
        reached(origin, history) matches Some(world) ==> all_sound(world),
    decreases history.len(),
{
    if history.len() > 0 {
        let before = history.drop_last();
        lemma_reached_is_sound(origin, before);
        let (p, event) = history.last();
        if let Some(world) = reached(origin, before) {
            if possible(world, p, event) {
                lemma_event_keeps_sound(world, p, event);
            }
        }
    }
}

/// Durable state is changed by one process at a time: whoever asks to change it
/// holds the lock, and nobody else believes to hold it.
pub proof fn changes_are_exclusive(origin: World, history: Seq<(int, Event)>, p: int, q: int)
    requires
        quiet(origin),
        reached(origin, history) matches Some(world) && world.runs.dom().contains(p)
            && world.runs.dom().contains(q) && p != q,
    ensures
        reached(origin, history) matches Some(world) && {
            &&& !(world.runs[p].1.held && world.runs[q].1.held)
            &&& world.runs[p].0 matches Turn::Ask(task) ==> (task.asks() is Write
                || task.asks() is Clear || task.asks() is Claim || task.asks() is PruneClaims ==> {
                &&& world.holder == Some(p)
                &&& !world.runs[q].1.held
            })
        },
{
    lemma_reached_is_sound(origin, history);
    let world = reached(origin, history)->0;
    assert(sound(world, p) && sound(world, q));
    if let Turn::Ask(task) = world.runs[p].0 {
        lemma_guards(task, world.runs[p].1);
    }
}

/// No writer acts on stale knowledge, whoever else runs at the same time. At the
/// moment a process asks to write:
///
/// * a receipt goes over the record of its own episode, to move it forward;
/// * a child's `started` goes over the prepared record that its own tag names;
/// * a handoff knows exactly the record it is about to replace;
/// * a rollback replaces the record that its own handoff prepared.
pub proof fn no_writer_is_stale(origin: World, history: Seq<(int, Event)>, p: int)
    requires
        quiet(origin),
        reached(origin, history) matches Some(world) && world.runs.dom().contains(p),
    ensures
        reached(origin, history) matches Some(world) && (world.runs[p].0 matches Turn::Ask(task)
            ==> {
            &&& task matches Task::Note(note) ==> (note.asks() matches Request::Write(record) ==> {
                &&& world.disk matches Some(current)
                &&& is_current(current, attempt_of(record))
                &&& record.phase.rank() > current.phase.rank()
            })
            &&& task matches Task::Boot(Booting::Claim(_, claiming)) ==> (claiming.asks() matches
                Request::Write(record) ==> {
                &&& world.disk matches Some(current)
                &&& is_current(current, claiming.episode) && current.phase is Prepared
                &&& record == started(current, claiming.pid)
            })
            &&& hand_off_in(task) matches Some(hand_off) ==> {
                &&& hand_off.stage matches Stage::Write(attempt) ==> attempt.previous == world.disk
                &&& hand_off.stage matches Stage::Restore(attempt, _) ==> {
                    &&& world.disk matches Some(current)
                    &&& is_current(current, attempt.episode)
                }
            }
        }),
{
    lemma_reached_is_sound(origin, history);
    let world = reached(origin, history)->0;
    assert(sound(world, p));
    if let Turn::Ask(task) = world.runs[p].0 {
        lemma_guards(task, world.runs[p].1);
    }
}

/// Phases are monotonic: apart from a handoff, which replaces the record as a
/// whole, no process ever moves the record of an episode back. Only a receipt
/// that says more replaces it, and nothing but the end of the ladder replaces the
/// record of another episode.
pub proof fn receipts_are_monotonic(
    origin: World,
    history: Seq<(int, Event)>,
    p: int,
    reply: Reply<Seq<char>>,
    current: Record<Seq<char>>,
    next: Record<Seq<char>>,
)
    requires
        quiet(origin),
        reached(origin, history) matches Some(world) && {
            &&& possible(world, p, Event::Replied(reply))
            &&& world.runs[p].0 matches Turn::Ask(task) && hand_off_in(task) is None
            &&& world.disk == Some(current)
            &&& after(world, p, Event::Replied(reply)).disk == Some(next)
        },
    ensures
        next == current || next.phase is Exhausted || (attempt_of(next) == attempt_of(current)
            && next.phase.rank() > current.phase.rank()),
{
    lemma_reached_is_sound(origin, history);
    let world = reached(origin, history)->0;
    assert(sound(world, p));
    if let Turn::Ask(task) = world.runs[p].0 {
        lemma_guards(task, world.runs[p].1);
    }
}

/// A claim outlives its episode: it is dropped only with the whole state, or once
/// the record of another token is durable in place of the claimed one's. Until
/// then it cannot be won again.
pub proof fn claims_outlive_their_episode(
    origin: World,
    history: Seq<(int, Event)>,
    p: int,
    event: Event,
    claimed: Episode<Seq<char>>,
)
    requires
        quiet(origin),
        reached(origin, history) matches Some(world) && possible(world, p, event)
            && world.claims.contains(claimed),
    ensures
        reached(origin, history) matches Some(world) && {
            ||| after(world, p, event).claims.contains(claimed) && !truthful(
                after(world, p, event),
                p,
                Request::Claim(claimed),
                Reply::Claimed(Claim::Won),
            )
            ||| {
                &&& event is Replied
                &&& world.runs[p].0 matches Turn::Ask(task)
                &&& task.asks() is Clear || (task.asks() matches Request::PruneClaims { token }
                    && token != claimed.token && (world.disk matches Some(record) && record.token
                    == token))
            }
        },
{
    lemma_reached_is_sound(origin, history);
    let world = reached(origin, history)->0;
    if world.runs.dom().contains(p) {
        assert(sound(world, p));
        if let Turn::Ask(task) = world.runs[p].0 {
            lemma_guards(task, world.runs[p].1);
        }
    }
}

/// Whether `event` is that process `p` wins the claim on `episode`.
pub open spec fn wins(world: World, p: int, event: Event, episode: Episode<Seq<char>>) -> bool {
    &&& event matches Event::Replied(Reply::Claimed(Claim::Won))
    &&& world.runs[p].0 matches Turn::Ask(task) && task.asks() == Request::Claim(episode)
}

/// How often the claim on `episode` is won in a history.
pub open spec fn times_won(
    origin: World,
    history: Seq<(int, Event)>,
    episode: Episode<Seq<char>>,
) -> int
    decreases history.len(),
{
    if history.len() == 0 {
        0
    } else {
        let before = history.drop_last();
        let (p, event) = history.last();
        times_won(origin, before, episode) + (if reached(origin, before) matches Some(world)
            && wins(world, p, event, episode) {
            1int
        } else {
            0int
        })
    }
}

/// How often the claim on `episode` is dropped in a history.
pub open spec fn times_dropped(
    origin: World,
    history: Seq<(int, Event)>,
    episode: Episode<Seq<char>>,
) -> int
    decreases history.len(),
{
    if history.len() == 0 {
        0
    } else {
        let before = history.drop_last();
        let (p, event) = history.last();
        times_dropped(origin, before, episode) + (if reached(origin, before) matches Some(world)
            && world.claims.contains(episode) && !after(world, p, event).claims.contains(episode) {
            1int
        } else {
            0int
        })
    }
}

/// A claim is exclusive: however many children carry the same tag, and however
/// they interleave, the claim on an episode is won at most once more often than it
/// is dropped, so of all that race for a claim that stands, one wins.
pub proof fn a_claim_is_won_once(
    origin: World,
    history: Seq<(int, Event)>,
    episode: Episode<Seq<char>>,
)
    requires
        reached(origin, history) is Some,
    ensures
        times_won(origin, history, episode) <= times_dropped(origin, history, episode) + 1,
        reached(origin, history) matches Some(world) && times_won(origin, history, episode) + (
        if origin.claims.contains(episode) {
            1int
        } else {
            0int
        }) == times_dropped(origin, history, episode) + (if world.claims.contains(episode) {
            1int
        } else {
            0int
        }),
    decreases history.len(),
{
    if history.len() > 0 {
        let before = history.drop_last();
        let (p, event) = history.last();
        a_claim_is_won_once(origin, before, episode);
        let world = reached(origin, before)->0;
        let next = after(world, p, event);
        if wins(world, p, event, episode) {
            assert(next.claims.contains(episode) && !world.claims.contains(episode));
        } else if next.claims.contains(episode) {
            assert(world.claims.contains(episode));
        }
    }
}

} // verus!
