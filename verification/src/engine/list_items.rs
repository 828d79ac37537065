use vstd::prelude::*;
use crate::engine::Execute;
use crate::error::AppError;
use crate::storage::{list_view, Storage};

verus! {

/// Example command demonstrating how to read data from the storage layer.
pub struct ListItems;

impl Execute<Vec<String>> for ListItems {
    /// The items of the storage, as it lists them; the storage is unchanged.
    fn execute<S: Storage>(&self, storage: &mut S) -> (r: Result<Vec<String>, AppError>)
        ensures
            old(storage).list_items_post(list_view(r)),
            *final(storage) == *old(storage),
    {
        storage.list_items()
    }
}

} // verus!
