//! `GET /api/articles` and `GET /api/articles/:slug`.
use vstd::prelude::*;
use crate::api::{Reply, keeps, one_set};
use crate::cache::keys::{list_cache_key, list_key, article_slug, article_key};
use crate::common::{ArticleListParams, ArticleStatus, ArticleWithTags, PaginatedArticles};
use crate::db::Store;
use crate::db::articles::{listed, listed_page, full_article, opt_view, page_offset_fits};
use crate::db::table::row_with_slug;
use crate::error::{AppError, name_missing, name_missing_msg};

verus! {

/// The published articles, the asked page of them with the asked tag and
/// category. The answer echoes the asked page and limit (1 and 20 when not
/// asked) and is cached for five minutes under the listing's key.
pub fn list_articles(store: &Store, params: &ArticleListParams) -> (r: Reply<PaginatedArticles>)
    requires
        store.wf(),
        page_offset_fits(*params),
    ensures
        r.result matches Ok(pa) && {
            let rows = listed_page(store@, *params, Some(ArticleStatus::Published));
            &&& pa.total == store@.articles.filter(
                listed(store@, Some(ArticleStatus::Published), opt_view(params.category)),
            ).len()
            &&& pa.items.len() == rows.len()
            &&& forall|k: int| 0 <= k < rows.len() ==> full_article(store@, rows[k], #[trigger] pa.items@[k])
            &&& pa.page == (match params.page { Some(p) => p, None => 1 })
            &&& pa.limit == (match params.limit { Some(l) => l, None => 20 })
        },
        keeps(
            r.cache_ops@,
            list_key(params.page, params.limit, opt_view(params.tag), opt_view(params.category)),
            300,
        ),
{
    let key = list_cache_key(params);
    let (items, total) = match crate::db::articles::list(store, params, Some(ArticleStatus::Published)) {
        Ok(x) => x,
        Err(e) => {
            return Reply { result: Err(e), cache_ops: Vec::new() };
        },
    };
    let page = match params.page {
        Some(p) => p,
        None => 1,
    };
    let limit = match params.limit {
        Some(l) => l,
        None => 20,
    };
    Reply { result: Ok(PaginatedArticles { items, total, page, limit }), cache_ops: one_set(key, 300) }
}

/// The published article with slug `slug`, cached for an hour. An article
/// that is not published is answered as missing.
pub fn get_article(store: &Store, slug: &str) -> (r: Reply<ArticleWithTags>)
    ensures
        match row_with_slug(store@.articles, slug@) {
            Some(a) if a.status == ArticleStatus::Published => {
                &&& r.result matches Ok(x) && full_article(store@, a, x)
                &&& keeps(r.cache_ops@, article_key(slug@), 3600)
            },
            _ => {
                &&& r.result matches Err(AppError::NotFound(m)) && m@ == name_missing("article"@, slug@)
                &&& r.cache_ops@.len() == 0
            },
        },
{
    match crate::db::articles::get_by_slug(store, slug) {
        Ok(x) => {
            if x.article.status != ArticleStatus::Published {
                return Reply {
                    result: Err(AppError::NotFound(name_missing_msg("article", slug))),
                    cache_ops: Vec::new(),
                };
            }
            Reply { result: Ok(x), cache_ops: one_set(article_slug(slug), 3600) }
        },
        Err(e) => Reply { result: Err(e), cache_ops: Vec::new() },
    }
}

} // verus!
