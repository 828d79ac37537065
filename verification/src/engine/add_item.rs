use vstd::prelude::*;
use crate::engine::Execute;
use crate::error::{err_view, AppError};
use crate::storage::Storage;

verus! {

/// Minimal example command illustrating how to write to the storage layer.
pub struct AddItem<'a> {
    pub id: &'a str,
    pub content: &'a str,
}

impl Execute<()> for AddItem<'_> {
    /// Adds the item to the storage.
    fn execute<S: Storage>(&self, storage: &mut S) -> (r: Result<(), AppError>)
        ensures
            old(storage).add_item_post(final(storage), self.id@, self.content@, err_view(r)),
    {
        storage.add_item(self.id, self.content)
    }
}

} // verus!
