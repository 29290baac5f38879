//! A small task list: tasks with ids, text, a done flag and a creation time,
//! kept in insertion order, and the commands that add, list, complete and
//! remove them.
use vstd::prelude::*;

pub mod clock;
pub mod command;
pub mod store;
pub mod task;

verus! {

} // verus!
