//! `/api/manage/categories`. Every change makes the cache forget the
//! category list.
use vstd::prelude::*;
use crate::api::{Reply, deletes, one_del};
use crate::cache::keys::CATEGORIES_LIST;
use crate::common::{Category, CreateCategory, UpdateCategory};
use crate::db::{Store, StoreView};
use crate::db::order::listing;
use crate::db::categories::{category_created, category_updated, category_deleted, category_named};
use crate::db::table::row_with_slug;
use crate::error::{AppError, name_missing};

verus! {

/// All categories, by name.
pub fn list_categories(store: &Store) -> (r: Result<Vec<Category>, AppError>)
    requires
        store.wf(),
    ensures
        r matches Ok(cats) && cats@ == listing(store@.categories),
{
    crate::db::categories::list(store)
}

/// Writes a new category (see `db::categories::create`).
pub fn create_category(store: &mut Store, input: CreateCategory) -> (r: Reply<Category>)
    requires
        old(store).wf(),
    ensures
        final(store).wf(),
        category_created(old(store)@, input, final(store)@, r.result),
        r.result is Ok ==> deletes(r.cache_ops@, seq![CATEGORIES_LIST@]),
        r.result is Err ==> r.cache_ops@.len() == 0,
{
    match crate::db::categories::create(store, input) {
        Ok(c) => Reply { result: Ok(c), cache_ops: one_del(String::from_str(CATEGORIES_LIST)) },
        Err(e) => Reply { result: Err(e), cache_ops: Vec::new() },
    }
}

/// The category with slug `slug`.
pub fn get_category(store: &Store, slug: &str) -> (r: Result<Category, AppError>)
    ensures
        match row_with_slug(store@.categories, slug@) {
            Some(c) => r == Ok::<Category, AppError>(c),
            None => r matches Err(AppError::NotFound(m)) && m@ == name_missing("category"@, slug@),
        },
{
    crate::db::categories::get_by_slug(store, slug)
}

/// Changes the category that the path segment `key` names: the one with
/// that slug, else the one with that id (see `db::categories::update`).
pub fn update_category(store: &mut Store, key: &str, input: UpdateCategory) -> (r: Reply<Category>)
    requires
        old(store).wf(),
    ensures
        final(store).wf(),
        match category_named(old(store)@.categories, key@) {
            Some(c) => {
                &&& category_updated(old(store)@, c.id, input, final(store)@, r.result)
                &&& r.result is Ok ==> deletes(r.cache_ops@, seq![CATEGORIES_LIST@])
                &&& r.result is Err ==> r.cache_ops@.len() == 0
            },
            None => {
                &&& r.result matches Err(AppError::NotFound(m)) && m@ == name_missing("category"@, key@)
                &&& final(store)@ == old(store)@
                &&& r.cache_ops@.len() == 0
            },
        },
{
    let existing = match crate::db::categories::get_by_key(store, key) {
        Ok(c) => c,
        Err(e) => {
            return Reply { result: Err(e), cache_ops: Vec::new() };
        },
    };
    match crate::db::categories::update(store, existing.id, input) {
        Ok(c) => Reply { result: Ok(c), cache_ops: one_del(String::from_str(CATEGORIES_LIST)) },
        Err(e) => Reply { result: Err(e), cache_ops: Vec::new() },
    }
}

/// Removes the category with slug `slug` (see `db::categories::delete`);
/// answered with no content.
pub fn delete_category(store: &mut Store, slug: &str) -> (r: Reply<()>)
    requires
        old(store).wf(),
    ensures
        final(store).wf(),
        category_deleted(old(store)@, slug@, final(store)@, r.result),
        r.result is Ok ==> deletes(r.cache_ops@, seq![CATEGORIES_LIST@]),
        r.result is Err ==> r.cache_ops@.len() == 0,
{
    match crate::db::categories::delete(store, slug) {
        Ok(()) => Reply { result: Ok(()), cache_ops: one_del(String::from_str(CATEGORIES_LIST)) },
        Err(e) => Reply { result: Err(e), cache_ops: Vec::new() },
    }
}

} // verus!
