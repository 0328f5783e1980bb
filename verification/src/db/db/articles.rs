//! Repository-style article operations.
use vstd::prelude::*;
use crate::common::{Article, ArticleStatus, ArticleWithTags, ArticleListParams, CreateArticle, UpdateArticle, PaginatedArticles};
use crate::error::{AppError, unique_failed, foreign_key_failed, store_full, unique_failed_msg, foreign_key_failed_msg, store_full_msg};
use crate::slugs::{slugify, slugify_result};
use crate::common::copy_opt_string;
use super::super::{Store, StoreView, link_tags, links_without};
use super::super::articles::{
    opt_ids, created_article, coalesced_article, full_article, names_missing_category, with_tags, listed,
    window, window_start, window_end, counted_in_order, window_bounds, page_number,
};
use super::super::order::listing;
use super::super::table::{has_id, has_slug, index_of_id, row_with_id, row_with_slug, find_id, find_slug};

verus! {

/// The rows per page of this listing: the asked limit brought into `1..=100`
/// (20 when none is asked).
pub open spec fn clamped_limit(params: ArticleListParams) -> i64 {
    match params.limit {
        Some(l) => if l < 1 {
            1
        } else if l > 100 {
            100
        } else {
            l
        },
        None => 20,
    }
}

/// How many rows the page skips: `(page - 1) * limit`.
pub open spec fn clamped_offset(params: ArticleListParams) -> int {
    (page_number(params) - 1) * clamped_limit(params)
}

/// Whether the skip count of this listing fits the store's integers.
pub fn clamped_offset_fits(params: &ArticleListParams) -> (r: bool)
    ensures
        r == (i64::MIN <= clamped_offset(*params) <= i64::MAX),
{
    let page: i64 = match params.page {
        Some(p) => if p < 1 {
            1
        } else {
            p
        },
        None => 1,
    };
    let limit: i64 = match params.limit {
        Some(l) => if l < 1 {
            1
        } else if l > 100 {
            100
        } else {
            l
        },
        None => 20,
    };
    (page - 1).checked_mul(limit).is_some()
}

/// The store's report of this listing's statement when a tag or category is
/// asked: the statement puts its joins after its `WHERE` clause, which the
/// store cannot read.
pub open spec fn join_syntax_error() -> Seq<char> {
    "error returned from database: (code: 1) near \"INNER\": syntax error"@
}

/// The published articles that this listing shows, in listing order.
pub open spec fn published_in_order(v: StoreView) -> Seq<Article> {
    listing(v.articles.filter(listed(v, Some(ArticleStatus::Published), None)))
}

/// Lists published articles, the asked page of them, each with its tags and
/// category; the count is of all published articles. A listing that asks
/// for a tag or a category fails: its statement cannot be read.
pub fn list_articles(store: &Store, params: &ArticleListParams) -> (r: Result<PaginatedArticles, AppError>)
    requires
        store.wf(),
        i64::MIN <= clamped_offset(*params) <= i64::MAX,
    ensures
        params.tag is Some || params.category is Some ==> (r matches Err(AppError::Internal(m)) && m@
            == join_syntax_error()),
        params.tag is None && params.category is None ==> (r matches Ok(pa) && {
            let all = published_in_order(store@);
            let rows = window(all, clamped_limit(*params) as int, clamped_offset(*params));
            &&& pa.page == page_number(*params)
            &&& pa.limit == clamped_limit(*params)
            &&& pa.total == all.len()
            &&& pa.items.len() == rows.len()
            &&& forall|k: int| 0 <= k < rows.len() ==> full_article(store@, rows[k], #[trigger] pa.items@[k])
        }),
{
    let page: i64 = match params.page {
        Some(p) => if p < 1 {
            1
        } else {
            p
        },
        None => 1,
    };
    let limit: i64 = match params.limit {
        Some(l) => if l < 1 {
            1
        } else if l > 100 {
            100
        } else {
            l
        },
        None => 20,
    };
    let offset: i64 = (page - 1) * limit;
    if params.tag.is_some() || params.category.is_some() {
        return Err(
            AppError::Internal(
                String::from_str("error returned from database: (code: 1) near \"INNER\": syntax error"),
            ),
        );
    }
    let ghost v = store@;
    let (ordered, total) = counted_in_order(store, Some(ArticleStatus::Published), &None);
    let (start, end) = window_bounds(ordered.len(), limit, offset);
    let mut items: Vec<ArticleWithTags> = Vec::new();
    let mut k: usize = start;
    while k < end
        invariant
            v == store@,
            start <= k <= end <= ordered.len(),
            items.len() == k - start,
            forall|j: int| 0 <= j < items.len() ==> full_article(v, ordered@[start + j], #[trigger] items@[j]),
        decreases end - k,
    {
        items.push(with_tags(store, &ordered[k]));
        k = k + 1;
    }
    Ok(PaginatedArticles { items, total, page, limit })
}

/// Reads the article with slug `slug`, with its tags and category; `None`
/// when there is none.
pub fn get_article_by_slug(store: &Store, slug: &str) -> (r: Result<Option<ArticleWithTags>, AppError>)
    ensures
        match row_with_slug(store@.articles, slug@) {
            Some(a) => r matches Ok(Some(x)) && full_article(store@, a, x),
            None => r matches Ok(None),
        },
{
    match find_slug(&store.articles, slug) {
        Some(i) => Ok(Some(with_tags(store, &store.articles[i]))),
        None => Ok(None),
    }
}

fn copy_ids(v: &Vec<i64>) -> (r: Vec<i64>)
    ensures
        r@ == v@,
{
    let mut out: Vec<i64> = Vec::new();
    let mut i: usize = 0;
    while i < v.len()
        invariant
            i <= v.len(),
            out@ == v@.take(i as int),
        decreases v.len() - i,
    {
        out.push(v[i]);
        assert(v@.take(i + 1) =~= v@.take(i as int).push(v[i as int]));
        i = i + 1;
    }
    assert(v@.take(v.len() as int) =~= v@);
    out
}

/// Writes a new draft article, under the slug of its title. A slug that an
/// article has already fails, as the unique slug column refuses it; naming
/// a missing category fails and writes nothing; naming a missing tag fails
/// after the article and the links before that tag were written.
pub fn create_article(store: &mut Store, input: &CreateArticle, now: i64) -> (r: Result<Article, AppError>)
    requires
        old(store).wf(),
    ensures
        final(store).wf(),
        ({
            let v = old(store)@;
            let slug = slugify_result(input.title@);
            if has_slug(v.articles, slug) {
                &&& r matches Err(AppError::Internal(m)) && m@ == unique_failed("articles.slug"@)
                &&& final(store)@ == v
            } else if names_missing_category(v, input.category_id) {
                &&& r matches Err(AppError::Internal(m)) && m@ == foreign_key_failed()
                &&& final(store)@ == v
            } else if v.article_seq == i64::MAX {
                &&& r matches Err(AppError::Internal(m)) && m@ == store_full()
                &&& final(store)@ == v
            } else {
                let a = final(store)@.articles.last();
                let (links, ok) = link_tags(v.links, a.id, opt_ids(input.tag_ids), v.tags);
                &&& created_article(a, *input, (v.article_seq + 1) as i64, now)
                &&& final(store)@ == (StoreView {
                    articles: v.articles.push(a),
                    article_seq: (v.article_seq + 1) as i64,
                    links,
                    ..v
                })
                &&& ok ==> r == Ok::<Article, AppError>(a)
                &&& !ok ==> (r matches Err(AppError::Internal(m)) && m@ == foreign_key_failed())
            }
        }),
{
    let input2 = CreateArticle {
        title: input.title.clone(),
        excerpt: copy_opt_string(&input.excerpt),
        body: input.body.clone(),
        author_name: input.author_name.clone(),
        category_id: input.category_id,
        tag_ids: match &input.tag_ids {
            Some(t) => Some(copy_ids(t)),
            None => None,
        },
    };
    let slug = slugify(input.title.as_str());
    if find_slug(&store.articles, slug.as_str()).is_some() {
        return Err(AppError::Internal(unique_failed_msg("articles.slug")));
    }
    super::super::articles::create(store, input2, now)
}

/// Whether `input` gives any field of the row (tags aside).
pub open spec fn gives_fields(input: UpdateArticle) -> bool {
    input.title is Some || input.excerpt is Some || input.body is Some || input.author_name is Some
        || input.category_id is Some
}

/// Changes article `id`; `None` when there is none. Only the fields that
/// `input` gives are written, and only then is the row updated at `now`;
/// given tag ids replace all of its links. Naming a missing category fails
/// and changes nothing; naming a missing tag fails after the row, and the
/// links before that tag, were written.
pub fn update_article(store: &mut Store, id: i64, input: &UpdateArticle, now: i64) -> (r: Result<
    Option<Article>,
    AppError,
>)
    requires
        old(store).wf(),
    ensures
        final(store).wf(),
        ({
            let v = old(store)@;
            let i = index_of_id(v.articles, id);
            if i < 0 {
                &&& r matches Ok(None)
                &&& final(store)@ == v
            } else if names_missing_category(v, input.category_id) {
                &&& r matches Err(AppError::Internal(m)) && m@ == foreign_key_failed()
                &&& final(store)@ == v
            } else {
                let a = final(store)@.articles[i];
                &&& gives_fields(*input) ==> coalesced_article(a, v.articles[i], *input, now)
                &&& !gives_fields(*input) ==> a == v.articles[i]
                &&& match input.tag_ids {
                    None => {
                        &&& final(store)@ == v.with_articles(v.articles.update(i, a))
                        &&& r == Ok::<Option<Article>, AppError>(Some(a))
                    },
                    Some(tids) => {
                        let (links, ok) = link_tags(links_without(v.links, id), id, tids@, v.tags);
                        &&& final(store)@ == v.with_articles(v.articles.update(i, a)).with_links(links)
                        &&& ok ==> r == Ok::<Option<Article>, AppError>(Some(a))
                        &&& !ok ==> (r matches Err(AppError::Internal(m)) && m@ == foreign_key_failed())
                    },
                }
            }
        }),
{
    let idx = match find_id(&store.articles, id) {
        Some(i) => i,
        None => {
            return Ok(None);
        },
    };
    let any = input.title.is_some() || input.excerpt.is_some() || input.body.is_some()
        || input.author_name.is_some() || input.category_id.is_some();
    let a = if any {
        let input2 = UpdateArticle {
            title: copy_opt_string(&input.title),
            excerpt: copy_opt_string(&input.excerpt),
            body: copy_opt_string(&input.body),
            author_name: copy_opt_string(&input.author_name),
            category_id: input.category_id,
            tag_ids: None,
        };
        match super::super::articles::update(store, id, input2, now) {
            Ok(a) => a,
            Err(e) => {
                return Err(e);
            },
        }
    } else {
        let a = store.articles[idx].copy();
        assert(store@.articles.update(idx as int, a) =~= store@.articles);
        a
    };
    let ghost v1 = store@;
    match &input.tag_ids {
        Some(tids) => {
            store.remove_links_of(id);
            assert(has_id(store@.articles, id)) by {
                assert(store@.articles[idx as int].id == id);
            }
            if !store.add_tag_links(id, tids) {
                return Err(AppError::Internal(foreign_key_failed_msg()));
            }
        },
        None => {},
    }
    Ok(Some(a))
}

/// Removes article `id` with its links; whether there was one.
pub fn delete_article(store: &mut Store, id: i64) -> (r: Result<bool, AppError>)
    requires
        old(store).wf(),
    ensures
        final(store).wf(),
        ({
            let v = old(store)@;
            let i = index_of_id(v.articles, id);
            if i < 0 {
                &&& r == Ok::<bool, AppError>(false)
                &&& final(store)@ == v
            } else {
                &&& final(store)@ == v.with_articles(v.articles.remove(i)).with_links(links_without(v.links, id))
                &&& r == Ok::<bool, AppError>(true)
            }
        }),
{
    match super::super::articles::delete(store, id) {
        Ok(()) => Ok(true),
        Err(_) => Ok(false),
    }
}

/// Publishes article `id`, published and updated at `now`; `None` when there
/// is none.
pub fn publish_article(store: &mut Store, id: i64, now: i64) -> (r: Result<Option<Article>, AppError>)
    requires
        old(store).wf(),
    ensures
        final(store).wf(),
        ({
            let v = old(store)@;
            let i = index_of_id(v.articles, id);
            if i < 0 {
                &&& r matches Ok(None)
                &&& final(store)@ == v
            } else {
                let a = (Article {
                    status: ArticleStatus::Published,
                    published_at: Some(now),
                    updated_at: now,
                    ..v.articles[i]
                });
                &&& final(store)@ == v.with_articles(v.articles.update(i, a))
                &&& r == Ok::<Option<Article>, AppError>(Some(a))
            }
        }),
{
    match super::super::articles::publish(store, id, now) {
        Ok(a) => Ok(Some(a)),
        Err(_) => Ok(None),
    }
}

/// Archives article `id`, updated at `now`; `None` when there is none.
pub fn archive_article(store: &mut Store, id: i64, now: i64) -> (r: Result<Option<Article>, AppError>)
    requires
        old(store).wf(),
    ensures
        final(store).wf(),
        ({
            let v = old(store)@;
            let i = index_of_id(v.articles, id);
            if i < 0 {
                &&& r matches Ok(None)
                &&& final(store)@ == v
            } else {
                let a = (Article { status: ArticleStatus::Archived, updated_at: now, ..v.articles[i] });
                &&& final(store)@ == v.with_articles(v.articles.update(i, a))
                &&& r == Ok::<Option<Article>, AppError>(Some(a))
            }
        }),
{
    match super::super::articles::archive(store, id, now) {
        Ok(a) => Ok(Some(a)),
        Err(_) => Ok(None),
    }
}

} // verus!
