//! A storage that records the calls made to it, for testing commands.

use vstd::prelude::*;
use crate::error::{AppError, ErrorView};
use crate::storage::Storage;
use crate::text::strs;

verus! {

/// Records each `add_item` and `delete_item` call, and lists the items it
/// was given by `set_list_items`.
pub struct MockStorage {
    pub add_calls: Vec<(String, String)>,
    pub delete_calls: Vec<String>,
    pub list_items_values: Vec<String>,
}

/// The views of recorded `(id, content)` pairs.
pub open spec fn pair_views(v: Seq<(String, String)>) -> Seq<(Seq<char>, Seq<char>)> {
    v.map_values(|p: (String, String)| (p.0@, p.1@))
}

impl Default for MockStorage {
    fn default() -> (s: Self)
        ensures
            s.add_calls@.len() == 0,
            s.delete_calls@.len() == 0,
            s.list_items_values@.len() == 0,
    {
        MockStorage { add_calls: Vec::new(), delete_calls: Vec::new(), list_items_values: Vec::new() }
    }
}

impl MockStorage {
    /// Makes `list_items` return `items`, in order.
    pub fn set_list_items(&mut self, items: &[&str])
        ensures
            strs(final(self).list_items_values@) == items@.map_values(|s: &str| s@),
            final(self).add_calls == old(self).add_calls,
            final(self).delete_calls == old(self).delete_calls,
    {
        let mut values: Vec<String> = Vec::new();
        let mut k: usize = 0;
        while k < items.len()
            invariant
                k <= items.len(),
                strs(values@) == items@.take(k as int).map_values(|s: &str| s@),
            decreases items.len() - k,
        {
            let ghost before = values@;
            values.push(items[k].to_string());
            assert(strs(values@) =~= strs(before).push(items@[k as int]@));
            assert(items@.take(k + 1).map_values(|s: &str| s@) =~= items@.take(k as int).map_values(
                |s: &str| s@,
            ).push(items@[k as int]@));
            k += 1;
        }
        assert(items@.take(items.len() as int) =~= items@);
        self.list_items_values = values;
    }
}

impl Storage for MockStorage {
    open spec fn add_item_post(
        &self,
        after: &Self,
        id: Seq<char>,
        content: Seq<char>,
        r: Result<(), ErrorView>,
    ) -> bool {
        &&& pair_views(after.add_calls@) == pair_views(self.add_calls@).push((id, content))
        &&& after.delete_calls == self.delete_calls
        &&& after.list_items_values == self.list_items_values
        &&& r is Ok
    }

    open spec fn list_items_post(&self, r: Result<Seq<Seq<char>>, ErrorView>) -> bool {
        r == Ok::<Seq<Seq<char>>, ErrorView>(strs(self.list_items_values@))
    }

    open spec fn delete_item_post(&self, after: &Self, id: Seq<char>, r: Result<(), ErrorView>) -> bool {
        &&& strs(after.delete_calls@) == strs(self.delete_calls@).push(id)
        &&& after.add_calls == self.add_calls
        &&& after.list_items_values == self.list_items_values
        &&& r is Ok
    }

    fn add_item(&mut self, id: &str, content: &str) -> (r: Result<(), AppError>) {
        let ghost before = self.add_calls@;
        self.add_calls.push((id.to_string(), content.to_string()));
        assert(pair_views(self.add_calls@) =~= pair_views(before).push((id@, content@)));
        Ok(())
    }

    fn list_items(&self) -> (r: Result<Vec<String>, AppError>) {
        Ok(self.list_items_values.clone())
    }

    fn delete_item(&mut self, id: &str) -> (r: Result<(), AppError>) {
        let ghost before = self.delete_calls@;
        self.delete_calls.push(id.to_string());
        assert(strs(self.delete_calls@) =~= strs(before).push(id@));
        Ok(())
    }
}

} // verus!
