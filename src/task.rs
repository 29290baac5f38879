//! A single task.
use vstd::prelude::*;

verus! {

/// One to-do item: its identifier, its text, whether it is done, and when
/// it was created (seconds since the Unix epoch).
#[derive(Debug, PartialEq, Eq)]
pub struct Task {
    pub id: u64,
    pub text: String,
    pub done: bool,
    pub created_at: u64,
}

impl Task {
    /// A task that is not done yet.
    pub fn new(id: u64, text: String, created_at: u64) -> (r: Task)
        ensures
            r == (Task { id, text, done: false, created_at }),
    {
        Task { id, text, done: false, created_at }
    }

    /// A new task equal to this one in every field.
    pub fn copy(&self) -> (r: Task)
        ensures
            r == *self,
    {
        Task { id: self.id, text: self.text.clone(), done: self.done, created_at: self.created_at }
    }
}

} // verus!
