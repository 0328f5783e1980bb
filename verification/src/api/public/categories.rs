//! `GET /api/categories`.
use vstd::prelude::*;
use crate::common::Category;
use crate::db::Store;
use crate::db::order::listing;
use crate::error::AppError;

verus! {

/// All categories, by name.
pub fn list_categories(store: &Store) -> (r: Result<Vec<Category>, AppError>)
    requires
        store.wf(),
    ensures
        r matches Ok(cats) && cats@ == listing(store@.categories),
{
    crate::db::categories::list(store)
}

} // verus!
