use vstd::prelude::*;
use crate::engine::Execute;
use crate::error::{err_view, AppError};
use crate::storage::Storage;

verus! {

/// Example command for removing an item from storage.
pub struct DeleteItem<'a> {
    pub id: &'a str,
}

impl Execute<()> for DeleteItem<'_> {
    /// Removes the item from the storage.
    fn execute<S: Storage>(&self, storage: &mut S) -> (r: Result<(), AppError>)
        ensures
            old(storage).delete_item_post(final(storage), self.id@, err_view(r)),
    {
        storage.delete_item(self.id)
    }
}

} // verus!
