//! `/api/manage/pages`. Every change of an existing page makes the cache
//! forget that page's entry.
use vstd::prelude::*;
use crate::api::{Reply, deletes, one_del};
use crate::cache::keys::{page_slug, page_key};
use crate::common::{Page, CreatePage, UpdatePage};
use crate::db::{Store, StoreView};
use crate::db::order::listing;
use crate::db::pages::{page_created, page_updated, page_published, page_deleted};
use crate::db::table::row_with_id;
use crate::error::{AppError, id_missing};

verus! {

/// All pages, latest created first.
pub fn list_pages(store: &Store) -> (r: Result<Vec<Page>, AppError>)
    requires
        store.wf(),
    ensures
        r matches Ok(pages) && pages@ == listing(store@.pages),
{
    crate::db::pages::list(store)
}

/// Writes a new draft page (see `db::pages::create`).
pub fn create_page(store: &mut Store, input: CreatePage, now: i64) -> (r: Result<Page, AppError>)
    requires
        old(store).wf(),
    ensures
        final(store).wf(),
        page_created(old(store)@, input, now, final(store)@, r),
{
    crate::db::pages::create(store, input, now)
}

/// Page `id`, whatever its status.
pub fn get_page(store: &Store, id: i64) -> (r: Result<Page, AppError>)
    ensures
        match row_with_id(store@.pages, id) {
            Some(p) => r == Ok::<Page, AppError>(p),
            None => r matches Err(AppError::NotFound(m)) && m@ == id_missing("page"@, id),
        },
{
    crate::db::pages::get_by_id(store, id)
}

/// Changes page `id` (see `db::pages::update`).
pub fn update_page(store: &mut Store, id: i64, input: UpdatePage, now: i64) -> (r: Reply<Page>)
    requires
        old(store).wf(),
    ensures
        final(store).wf(),
        page_updated(old(store)@, id, input, now, final(store)@, r.result),
        r.result matches Ok(p) ==> deletes(r.cache_ops@, seq![page_key(p.slug@)]),
        r.result is Err ==> r.cache_ops@.len() == 0,
{
    match crate::db::pages::update(store, id, input, now) {
        Ok(p) => {
            let ops = one_del(page_slug(p.slug.as_str()));
            Reply { result: Ok(p), cache_ops: ops }
        },
        Err(e) => Reply { result: Err(e), cache_ops: Vec::new() },
    }
}

/// Removes page `id`; answered with no content.
pub fn delete_page(store: &mut Store, id: i64) -> (r: Reply<()>)
    requires
        old(store).wf(),
    ensures
        final(store).wf(),
        page_deleted(old(store)@, id, final(store)@, r.result),
        match row_with_id(old(store)@.pages, id) {
            Some(p) => deletes(r.cache_ops@, seq![page_key(p.slug@)]),
            None => r.cache_ops@.len() == 0,
        },
{
    let slug = match crate::db::pages::get_by_id(store, id) {
        Ok(p) => p.slug,
        Err(e) => {
            return Reply { result: Err(e), cache_ops: Vec::new() };
        },
    };
    match crate::db::pages::delete(store, id) {
        Ok(()) => Reply { result: Ok(()), cache_ops: one_del(page_slug(slug.as_str())) },
        Err(e) => Reply { result: Err(e), cache_ops: Vec::new() },
    }
}

/// Publishes page `id` (see `db::pages::publish`).
pub fn publish_page(store: &mut Store, id: i64, now: i64) -> (r: Reply<Page>)
    requires
        old(store).wf(),
    ensures
        final(store).wf(),
        page_published(old(store)@, id, now, final(store)@, r.result),
        r.result matches Ok(p) ==> deletes(r.cache_ops@, seq![page_key(p.slug@)]),
        r.result is Err ==> r.cache_ops@.len() == 0,
{
    match crate::db::pages::publish(store, id, now) {
        Ok(p) => {
            let ops = one_del(page_slug(p.slug.as_str()));
            Reply { result: Ok(p), cache_ops: ops }
        },
        Err(e) => Reply { result: Err(e), cache_ops: Vec::new() },
    }
}

} // verus!
