//! `/api/manage/articles`: listing, writing, publishing, archiving and
//! removing articles. Every change makes the cache forget every listing,
//! the article's own entry and the homepage feed.
use vstd::prelude::*;
use crate::api::{Reply, article_change, article_dels, listing_dels};
use crate::common::{Article, ArticleStatus, status_named, ArticleListParams, ArticleWithTags, CreateArticle, UpdateArticle, PaginatedArticles};
use crate::db::{Store, StoreView};
use crate::db::articles::{
    listed, listed_page, full_article, opt_view, page_offset_fits, article_created, article_updated,
    article_published, article_archived, article_deleted,
};
use crate::db::table::row_with_id;
use crate::error::{AppError, id_missing};

verus! {

/// What the manage listing answers: the articles of status `filter` (any
/// status when `None`), the asked page of them with the asked tag and
/// category, echoing the asked page and limit (1 and 20 when not asked).
pub open spec fn manage_page(v: StoreView, params: ArticleListParams, filter: Option<ArticleStatus>, pa: PaginatedArticles) -> bool {
    let rows = listed_page(v, params, filter);
    &&& pa.total == v.articles.filter(listed(v, filter, opt_view(params.category))).len()
    &&& pa.items.len() == rows.len()
    &&& forall|k: int| 0 <= k < rows.len() ==> full_article(v, rows[k], #[trigger] pa.items@[k])
    &&& pa.page == (match params.page { Some(p) => p, None => 1 })
    &&& pa.limit == (match params.limit { Some(l) => l, None => 20 })
}

/// The articles of the asked status (`status`, a stored status name; every
/// status when none is asked), the asked page of them with the asked tag
/// and category. A name that is no status matches no article.
pub fn list_articles(store: &Store, params: &ArticleListParams, status: Option<&str>) -> (r: Result<
    PaginatedArticles,
    AppError,
>)
    requires
        store.wf(),
        page_offset_fits(*params),
    ensures
        match status {
            None => r matches Ok(pa) && manage_page(store@, *params, None, pa),
            Some(s) => match status_named(s@) {
                Some(st) => r matches Ok(pa) && manage_page(store@, *params, Some(st), pa),
                None => r matches Ok(pa) && {
                    &&& pa.items.len() == 0
                    &&& pa.total == 0
                    &&& pa.page == (match params.page { Some(p) => p, None => 1 })
                    &&& pa.limit == (match params.limit { Some(l) => l, None => 20 })
                },
            },
        },
{
    let page = match params.page {
        Some(p) => p,
        None => 1,
    };
    let limit = match params.limit {
        Some(l) => l,
        None => 20,
    };
    let filter = match status {
        None => None,
        Some(s) => match ArticleStatus::from_name(s) {
            Some(st) => Some(st),
            None => {
                return Ok(PaginatedArticles { items: Vec::new(), total: 0, page, limit });
            },
        },
    };
    let (items, total) = match crate::db::articles::list(store, params, filter) {
        Ok(x) => x,
        Err(e) => {
            return Err(e);
        },
    };
    Ok(PaginatedArticles { items, total, page, limit })
}

/// Writes a new draft article (see `db::articles::create`); once written, the
/// cache forgets every listing and the homepage feed.
pub fn create_article(store: &mut Store, input: CreateArticle, now: i64) -> (r: Reply<Article>)
    requires
        old(store).wf(),
    ensures
        final(store).wf(),
        article_created(old(store)@, input, now, final(store)@, r.result),
        r.result is Ok ==> article_change(r.cache_ops@, None),
        r.result is Err ==> r.cache_ops@.len() == 0,
{
    match crate::db::articles::create(store, input, now) {
        Ok(a) => {
            Reply { result: Ok(a), cache_ops: listing_dels() }
        },
        Err(e) => Reply { result: Err(e), cache_ops: Vec::new() },
    }
}

/// Article `id` with its tags and category, whatever its status.
pub fn get_article(store: &Store, id: i64) -> (r: Result<ArticleWithTags, AppError>)
    ensures
        match row_with_id(store@.articles, id) {
            Some(a) => r matches Ok(x) && full_article(store@, a, x),
            None => r matches Err(AppError::NotFound(m)) && m@ == id_missing("article"@, id),
        },
{
    crate::db::articles::get_by_id(store, id)
}

/// Changes article `id` (see `db::articles::update`).
pub fn update_article(store: &mut Store, id: i64, input: UpdateArticle, now: i64) -> (r: Reply<Article>)
    requires
        old(store).wf(),
    ensures
        final(store).wf(),
        article_updated(old(store)@, id, input, now, final(store)@, r.result),
        r.result matches Ok(a) ==> article_change(r.cache_ops@, Some(a.slug@)),
        r.result is Err ==> r.cache_ops@.len() == 0,
{
    match crate::db::articles::update(store, id, input, now) {
        Ok(a) => {
            let ops = article_dels(a.slug.as_str());
            Reply { result: Ok(a), cache_ops: ops }
        },
        Err(e) => Reply { result: Err(e), cache_ops: Vec::new() },
    }
}

/// Removes article `id` with its links; answered with no content.
pub fn delete_article(store: &mut Store, id: i64) -> (r: Reply<()>)
    requires
        old(store).wf(),
    ensures
        final(store).wf(),
        article_deleted(old(store)@, id, final(store)@, r.result),
        match row_with_id(old(store)@.articles, id) {
            Some(a) => article_change(r.cache_ops@, Some(a.slug@)),
            None => r.cache_ops@.len() == 0,
        },
{
    let slug = match crate::db::articles::get_by_id(store, id) {
        Ok(x) => x.article.slug,
        Err(e) => {
            return Reply { result: Err(e), cache_ops: Vec::new() };
        },
    };
    match crate::db::articles::delete(store, id) {
        Ok(()) => Reply { result: Ok(()), cache_ops: article_dels(slug.as_str()) },
        Err(e) => Reply { result: Err(e), cache_ops: Vec::new() },
    }
}

/// Publishes article `id` (see `db::articles::publish`).
pub fn publish_article(store: &mut Store, id: i64, now: i64) -> (r: Reply<Article>)
    requires
        old(store).wf(),
    ensures
        final(store).wf(),
        article_published(old(store)@, id, now, final(store)@, r.result),
        r.result matches Ok(a) ==> article_change(r.cache_ops@, Some(a.slug@)),
        r.result is Err ==> r.cache_ops@.len() == 0,
{
    match crate::db::articles::publish(store, id, now) {
        Ok(a) => {
            let ops = article_dels(a.slug.as_str());
            Reply { result: Ok(a), cache_ops: ops }
        },
        Err(e) => Reply { result: Err(e), cache_ops: Vec::new() },
    }
}

/// Archives article `id` (see `db::articles::archive`).
pub fn archive_article(store: &mut Store, id: i64, now: i64) -> (r: Reply<Article>)
    requires
        old(store).wf(),
    ensures
        final(store).wf(),
        article_archived(old(store)@, id, now, final(store)@, r.result),
        r.result matches Ok(a) ==> article_change(r.cache_ops@, Some(a.slug@)),
        r.result is Err ==> r.cache_ops@.len() == 0,
{
    match crate::db::articles::archive(store, id, now) {
        Ok(a) => {
            let ops = article_dels(a.slug.as_str());
            Reply { result: Ok(a), cache_ops: ops }
        },
        Err(e) => Reply { result: Err(e), cache_ops: Vec::new() },
    }
}

} // verus!
