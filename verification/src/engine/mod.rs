//! Commands and the steps of a run, an evaluation and a report.

use vstd::prelude::*;
use crate::error::AppError;
use crate::storage::Storage;

pub mod add_item;
pub mod delete_item;
pub mod evaluator;
pub mod list_items;
pub mod reporter;
pub mod runner;
pub mod test_support;

verus! {

/// A command that works on a storage and returns a `T`.
pub trait Execute<T> {
    fn execute<S: Storage>(&self, storage: &mut S) -> Result<T, AppError>;
}

} // verus!
