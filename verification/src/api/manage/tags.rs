//! `/api/manage/tags`.
use vstd::prelude::*;
use crate::common::{Tag, CreateTag};
use crate::db::Store;
use crate::db::order::listing;
use crate::db::tags::{tag_created, tag_deleted};
use crate::error::AppError;

verus! {

/// All tags, by name.
pub fn list_tags(store: &Store) -> (r: Result<Vec<Tag>, AppError>)
    requires
        store.wf(),
    ensures
        r matches Ok(tags) && tags@ == listing(store@.tags),
{
    crate::db::tags::list(store)
}

/// Writes a new tag (see `db::tags::create`).
pub fn create_tag(store: &mut Store, input: CreateTag) -> (r: Result<Tag, AppError>)
    requires
        old(store).wf(),
    ensures
        final(store).wf(),
        tag_created(old(store)@, input, final(store)@, r),
{
    crate::db::tags::create(store, input)
}

/// Removes the tag with slug `slug`; answered with no content.
pub fn delete_tag(store: &mut Store, slug: &str) -> (r: Result<(), AppError>)
    requires
        old(store).wf(),
    ensures
        final(store).wf(),
        tag_deleted(old(store)@, slug@, final(store)@, r),
{
    crate::db::tags::delete(store, slug)
}

} // verus!
