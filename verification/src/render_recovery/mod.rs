//! Renderer recovery: a ladder of rendering profiles, from the fastest to the
//! safest, that a crashing launch steps down one rung at a time.
//!
//! A profile is a set of environment variables, so changing it means handing the
//! app over to a child process. `profiles` has the ladder, `state` the durable
//! record, `classify` what a launch makes of a record it finds. `session` decides
//! at boot and after a crash, `hand_off`, `claim` and `receipt` carry a decision
//! through one request at a time, in the terms of `protocol`. `remark` says why.
//!
//! What holds of all this is in `laws` (the rules themselves), `run` (one task,
//! whatever its host replies), `outcomes` (what each task comes to) and
//! `contention` (any number of processes at once).

pub mod claim;
pub mod classify;
pub mod cli;
pub mod contention;
pub mod dbus;
pub mod episode;
pub mod hand_off;
pub mod launcher;
pub mod laws;
pub mod outcomes;
pub mod profiles;
pub mod protocol;
pub mod receipt;
pub mod remark;
pub mod run;
pub mod session;
pub mod state;
pub mod task;
