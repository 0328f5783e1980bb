//! `GET /api/tags` and `GET /api/tags/:slug/articles`.
use vstd::prelude::*;
use crate::common::{Tag, ArticleListParams, ArticleStatus, ArticleWithTags};
use crate::db::Store;
use crate::db::order::listing;
use crate::db::articles::{listed_page, full_article};
use crate::error::AppError;

verus! {

/// All tags, by name.
pub fn list_tags(store: &Store) -> (r: Result<Vec<Tag>, AppError>)
    requires
        store.wf(),
    ensures
        r matches Ok(tags) && tags@ == listing(store@.tags),
{
    crate::db::tags::list(store)
}

/// The listing that asks for tag `slug` and nothing else.
pub open spec fn tag_params(slug: String) -> ArticleListParams {
    ArticleListParams { page: None, limit: None, tag: Some(slug), category: None }
}

/// The published articles of the first page of the listing (twenty rows)
/// that carry tag `slug`, each with its tags and category.
pub fn articles_by_tag(store: &Store, slug: String) -> (r: Result<Vec<ArticleWithTags>, AppError>)
    requires
        store.wf(),
    ensures
        r matches Ok(items) && {
            let rows = listed_page(store@, tag_params(slug), Some(ArticleStatus::Published));
            &&& items.len() == rows.len()
            &&& forall|k: int| 0 <= k < rows.len() ==> full_article(store@, rows[k], #[trigger] items@[k])
        },
{
    let params = ArticleListParams { page: None, limit: None, tag: Some(slug), category: None };
    match crate::db::articles::list(store, &params, Some(ArticleStatus::Published)) {
        Ok((items, _)) => Ok(items),
        Err(e) => Err(e),
    }
}

} // verus!
