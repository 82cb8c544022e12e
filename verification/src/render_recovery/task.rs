//! One task type for everything the host may have under way.

use super::protocol::{Reply, Request, Turn};
use super::receipt::Noting;
use super::session::{Boot, Booting, CrashResponse, Crashing};
use vstd::prelude::*;

verus! {

/// Something under way: a boot, the answer to a crash, or a receipt.
#[derive(Debug, PartialEq, Eq)]
pub enum Task<S = String> {
    Boot(Booting<S>),
    Crash(Crashing<S>),
    Note(Noting<S>),
}

impl View for Task<String> {
    type V = Task<Seq<char>>;

    open spec fn view(&self) -> Task<Seq<char>> {
        match self {
            Task::Boot(task) => Task::Boot(task@),
            Task::Crash(task) => Task::Crash(task@),
            Task::Note(task) => Task::Note(task@),
        }
    }
}

/// What came of it.
#[derive(Debug, PartialEq, Eq)]
pub enum Outcome<S = String, L = Vec<String>> {
    Booted(Boot<S, L>),
    Answered(CrashResponse),
    Noted,
}

impl View for Outcome<String, Vec<String>> {
    type V = Outcome<Seq<char>, Seq<Seq<char>>>;

    open spec fn view(&self) -> Outcome<Seq<char>, Seq<Seq<char>>> {
        match self {
            Outcome::Booted(boot) => Outcome::Booted(boot@),
            Outcome::Answered(response) => Outcome::Answered(*response),
            Outcome::Noted => Outcome::Noted,
        }
    }
}

/// A task's next turn, in the model.
pub type TaskModel = Turn<Task<Seq<char>>, Outcome<Seq<char>, Seq<Seq<char>>>>;

/// A boot's turn as a task's.
pub open spec fn booting(
    turn: Turn<Booting<Seq<char>>, Boot<Seq<char>, Seq<Seq<char>>>>,
) -> TaskModel {
    match turn {
        Turn::Ask(task) => Turn::Ask(Task::Boot(task)),
        Turn::Done(boot) => Turn::Done(Outcome::Booted(boot)),
    }
}

/// A crash answer's turn as a task's.
pub open spec fn crashing(turn: Turn<Crashing<Seq<char>>, CrashResponse>) -> TaskModel {
    match turn {
        Turn::Ask(task) => Turn::Ask(Task::Crash(task)),
        Turn::Done(response) => Turn::Done(Outcome::Answered(response)),
    }
}

/// A receipt's turn as a task's.
pub open spec fn noting(turn: Turn<Noting<Seq<char>>, ()>) -> TaskModel {
    match turn {
        Turn::Ask(task) => Turn::Ask(Task::Note(task)),
        Turn::Done(()) => Turn::Done(Outcome::Noted),
    }
}

impl Task<Seq<char>> {
    /// The request the task waits with.
    pub open spec fn asks(self) -> Request<Seq<char>> {
        match self {
            Task::Boot(task) => task.asks(),
            Task::Crash(task) => task.asks(),
            Task::Note(task) => task.asks(),
        }
    }

    /// The task after a reply.
    pub open spec fn next(self, reply: Reply<Seq<char>>) -> TaskModel {
        match self {
            Task::Boot(task) => booting(task.next(reply)),
            Task::Crash(task) => crashing(task.next(reply)),
            Task::Note(task) => noting(task.next(reply)),
        }
    }
}

/// A boot's turn as a task's.
pub fn boot_turn(turn: Turn<Booting, Boot>) -> (result: Turn<Task, Outcome>)
    ensures
        result@ == booting(turn@),
{
    match turn {
        Turn::Ask(task) => Turn::Ask(Task::Boot(task)),
        Turn::Done(boot) => Turn::Done(Outcome::Booted(boot)),
    }
}

/// A crash answer's turn as a task's.
pub fn crash_turn(turn: Turn<Crashing, CrashResponse>) -> (result: Turn<Task, Outcome>)
    ensures
        result@ == crashing(turn@),
{
    match turn {
        Turn::Ask(task) => Turn::Ask(Task::Crash(task)),
        Turn::Done(response) => Turn::Done(Outcome::Answered(response)),
    }
}

/// A receipt's turn as a task's.
pub fn note_turn(turn: Turn<Noting, ()>) -> (result: Turn<Task, Outcome>)
    ensures
        result@ == noting(turn@),
{
    match turn {
        Turn::Ask(task) => Turn::Ask(Task::Note(task)),
        Turn::Done(()) => Turn::Done(Outcome::Noted),
    }
}

impl Task<String> {
    /// The request the task waits with.
    pub fn request(&self) -> (request: Request)
        ensures
            request@ == self@.asks(),
    {
        match self {
            Task::Boot(task) => task.request(),
            Task::Crash(task) => task.request(),
            Task::Note(task) => task.request(),
        }
    }

    /// Take the next turn.
    pub fn step(self, reply: Reply) -> (turn: Turn<Task, Outcome>)
        ensures
            turn@ == self@.next(reply@),
    {
        match self {
            Task::Boot(task) => boot_turn(task.step(reply)),
            Task::Crash(task) => crash_turn(task.step(reply)),
            Task::Note(task) => note_turn(task.step(reply)),
        }
    }
}

} // verus!
