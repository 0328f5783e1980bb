//! `GET /api/pages/:slug`.
use vstd::prelude::*;
use crate::api::{Reply, keeps, one_set};
use crate::cache::keys::{page_slug, page_key};
use crate::common::{Page, PageStatus};
use crate::db::Store;
use crate::db::table::row_with_slug;
use crate::error::{AppError, name_missing, name_missing_msg};

verus! {

/// The published page with slug `slug`, cached for an hour. A page that is
/// not published is answered as missing.
pub fn get_page(store: &Store, slug: &str) -> (r: Reply<Page>)
    ensures
        match row_with_slug(store@.pages, slug@) {
            Some(p) if p.status == PageStatus::Published => {
                &&& r.result == Ok::<Page, AppError>(p)
                &&& keeps(r.cache_ops@, page_key(slug@), 3600)
            },
            _ => {
                &&& r.result matches Err(AppError::NotFound(m)) && m@ == name_missing("page"@, slug@)
                &&& r.cache_ops@.len() == 0
            },
        },
{
    match crate::db::pages::get_by_slug(store, slug) {
        Ok(p) => {
            if p.status != PageStatus::Published {
                return Reply {
                    result: Err(AppError::NotFound(name_missing_msg("page", slug))),
                    cache_ops: Vec::new(),
                };
            }
            Reply { result: Ok(p), cache_ops: one_set(page_slug(slug), 3600) }
        },
        Err(e) => Reply { result: Err(e), cache_ops: Vec::new() },
    }
}

} // verus!
