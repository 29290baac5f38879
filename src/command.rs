//! One invocation: a parsed command applied to the collection, what it did,
//! and whether the collection must be written back.
use vstd::prelude::*;

use crate::store::{
    added, clear_completed, cleared, complete, completed, fresh_id, has_id, list, listed,
    max_id, remove, removed,
};
use crate::task::Task;

verus! {

/// One invocation's request, with its arguments already parsed.
#[derive(Debug, PartialEq, Eq)]
pub enum Command {
    /// Add a task with this text.
    Add { text: String },
    /// List the tasks; completed ones too when `all` holds.
    List { all: bool },
    /// Mark the task with this id done.
    Done { id: u64 },
    /// Remove the task with this id.
    Rm { id: u64 },
    /// Remove every completed task.
    ClearDone,
}

/// What an invocation did, for the caller to report.
#[derive(Debug, PartialEq, Eq)]
pub enum Outcome {
    /// A task was added under this id.
    Added { id: u64 },
    /// The tasks that a listing shows, and whether completed ones were asked for.
    Listed { shown: Vec<Task>, include_done: bool },
    /// The task with this id is now done.
    Completed { id: u64 },
    /// The task with this id was removed.
    Removed { id: u64 },
    /// No task has this id; nothing changed.
    NotFound { id: u64 },
    /// This many completed tasks were removed.
    Cleared { count: usize },
}

/// Whether the collection must be written back after an invocation with this
/// outcome: after every change, and after clearing even when nothing was removed.
pub open spec fn saves(o: Outcome) -> bool {
    match o {
        Outcome::Added { .. } => true,
        Outcome::Listed { .. } => false,
        Outcome::Completed { .. } => true,
        Outcome::Removed { .. } => true,
        Outcome::NotFound { .. } => false,
        Outcome::Cleared { .. } => true,
    }
}

/// Applies `command` to `tasks`; `now` is the creation time given to an added task.
pub fn execute(tasks: &mut Vec<Task>, command: Command, now: u64) -> (r: Outcome)
    requires
        command is Add ==> max_id(old(tasks)@) < u64::MAX,
    ensures
        match command {
            Command::Add { text } => {
                &&& r == (Outcome::Added { id: fresh_id(old(tasks)@) as u64 })
                &&& final(tasks)@ == added(old(tasks)@, text, now)
            },
            Command::List { all } => {
                &&& r matches Outcome::Listed { shown, include_done }
                &&& shown@ == listed(old(tasks)@, all)
                &&& include_done == all
                &&& final(tasks)@ == old(tasks)@
            },
            Command::Done { id } => {
                &&& r == (if has_id(old(tasks)@, id) {
                    Outcome::Completed { id }
                } else {
                    Outcome::NotFound { id }
                })
                &&& final(tasks)@ == completed(old(tasks)@, id)
            },
            Command::Rm { id } => {
                &&& r == (if has_id(old(tasks)@, id) {
                    Outcome::Removed { id }
                } else {
                    Outcome::NotFound { id }
                })
                &&& final(tasks)@ == removed(old(tasks)@, id)
            },
            Command::ClearDone => {
                &&& r == (Outcome::Cleared {
                    count: (old(tasks)@.len() - final(tasks)@.len()) as usize,
                })
                &&& final(tasks)@ == cleared(old(tasks)@)
            },
        },
{
    match command {
        Command::Add { text } => {
            let id = crate::store::add(tasks, text, now);
            Outcome::Added { id }
        },
        Command::List { all } => Outcome::Listed { shown: list(tasks.as_slice(), all), include_done: all },
        Command::Done { id } => {
            if complete(tasks, id) {
                Outcome::Completed { id }
            } else {
                Outcome::NotFound { id }
            }
        },
        Command::Rm { id } => {
            if remove(tasks, id) {
                Outcome::Removed { id }
            } else {
                Outcome::NotFound { id }
            }
        },
        Command::ClearDone => {
            let count = clear_completed(tasks);
            Outcome::Cleared { count }
        },
    }
}

/// Whether the collection must be written back after `outcome`.
pub fn should_save(outcome: &Outcome) -> (r: bool)
    ensures
        r == saves(*outcome),
{
    match outcome {
        Outcome::Added { .. } => true,
        Outcome::Listed { .. } => false,
        Outcome::Completed { .. } => true,
        Outcome::Removed { .. } => true,
        Outcome::NotFound { .. } => false,
        Outcome::Cleared { .. } => true,
    }
}

/// The collection to work on, from what storage held: none at all (no file
/// yet) gives an empty collection.
pub fn from_stored(stored: Option<Vec<Task>>) -> (r: Vec<Task>)
    ensures
        stored is None ==> r@ == Seq::<Task>::empty(),
        stored matches Some(v) ==> r@ == v@,
{
    match stored {
        Some(v) => v,
        None => Vec::new(),
    }
}

} // verus!
