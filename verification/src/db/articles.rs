//! Articles: writing, reading, publishing and removing them.
use vstd::prelude::*;
use crate::common::{Article, ArticleStatus, ArticleWithTags, ArticleListParams, CreateArticle, UpdateArticle, Tag};
use crate::text::str_eq;
use super::order::{Listed, listing, sort_rows, keys_distinct};
use super::lemma_filter_take;
use crate::error::{
    AppError, id_missing, name_missing, slug_taken, foreign_key_failed, store_full,
    id_missing_msg, name_missing_msg, slug_taken_msg, foreign_key_failed_msg, store_full_msg,
};
use crate::slugs::{slugify, slugify_result};
use super::{Store, StoreView, tags_of, category_of, link_tags, links_without};
use super::table::{Row, has_id, has_slug, index_of_id, index_of_slug, row_with_id, row_with_slug, find_id, find_slug, lemma_ids_rising_len};

verus! {

/// The tag ids of an input, none when it names no tags.
pub open spec fn opt_ids(o: Option<Vec<i64>>) -> Seq<i64> {
    match o {
        Some(v) => v@,
        None => Seq::empty(),
    }
}

/// An optional text, empty when absent (`unwrap_or_default`).
pub open spec fn text_or_empty(o: Option<String>) -> Seq<char> {
    match o {
        Some(s) => s@,
        None => Seq::empty(),
    }
}

/// `a` is the row that `create` makes from `input`: a draft with id `id`,
/// the slug of its title, created and updated at `now`, never published.
pub open spec fn created_article(a: Article, input: CreateArticle, id: i64, now: i64) -> bool {
    &&& a.id == id
    &&& a.slug@ == slugify_result(input.title@)
    &&& a.title == input.title
    &&& a.excerpt@ == text_or_empty(input.excerpt)
    &&& a.body == input.body
    &&& a.author_name == input.author_name
    &&& a.status == ArticleStatus::Draft
    &&& a.category_id == input.category_id
    &&& a.published_at is None
    &&& a.created_at == now
    &&& a.updated_at == now
}

/// `a` is `old` with each field that `input` gives replaced (`COALESCE`),
/// updated at `now`.
pub open spec fn coalesced_article(a: Article, old: Article, input: UpdateArticle, now: i64) -> bool {
    &&& a.id == old.id
    &&& a.slug == old.slug
    &&& a.title == (match input.title { Some(t) => t, None => old.title })
    &&& a.excerpt == (match input.excerpt { Some(t) => t, None => old.excerpt })
    &&& a.body == (match input.body { Some(t) => t, None => old.body })
    &&& a.author_name == (match input.author_name { Some(t) => t, None => old.author_name })
    &&& a.category_id == (match input.category_id { Some(c) => Some(c), None => old.category_id })
    &&& a.status == old.status
    &&& a.published_at == old.published_at
    &&& a.created_at == old.created_at
    &&& a.updated_at == now
}

/// `x` is article `a` as the store shows it: with its tags and its category.
pub open spec fn full_article(v: StoreView, a: Article, x: ArticleWithTags) -> bool {
    &&& x.article == a
    &&& x.tags@ == tags_of(v, a.id)
    &&& x.category == category_of(v, a.category_id)
}

/// Whether `input` names a category that is not in the store.
pub open spec fn names_missing_category(v: StoreView, cid: Option<i64>) -> bool {
    cid matches Some(c) && !has_id(v.categories, c)
}

/// Article `a` with the tags and category the store gives it.
pub fn with_tags(store: &Store, a: &Article) -> (r: ArticleWithTags)
    ensures
        full_article(store@, *a, r),
{
    ArticleWithTags { article: a.copy(), tags: store.tags_of(a.id), category: store.category_of(a.category_id) }
}

fn category_missing(store: &Store, cid: Option<i64>) -> (r: bool)
    ensures
        r == names_missing_category(store@, cid),
{
    match cid {
        Some(c) => find_id(&store.categories, c).is_none(),
        None => false,
    }
}

/// What `create` does: the store `v` becomes `w` and the answer is `r`.
pub open spec fn article_created(v: StoreView, input: CreateArticle, now: i64, w: StoreView, r: Result<Article, AppError>) -> bool {
    let slug = slugify_result(input.title@);
    if has_slug(v.articles, slug) {
        &&& r matches Err(AppError::Conflict(m)) && m@ == slug_taken(slug)
        &&& w == v
    } else if names_missing_category(v, input.category_id) {
        &&& r matches Err(AppError::Internal(m)) && m@ == foreign_key_failed()
        &&& w == v
    } else if v.article_seq == i64::MAX {
        &&& r matches Err(AppError::Internal(m)) && m@ == store_full()
        &&& w == v
    } else {
        let a = w.articles.last();
        let (links, ok) = link_tags(v.links, a.id, opt_ids(input.tag_ids), v.tags);
        &&& created_article(a, input, (v.article_seq + 1) as i64, now)
        &&& w == (StoreView {
            articles: v.articles.push(a),
            article_seq: (v.article_seq + 1) as i64,
            links,
            ..v
        })
        &&& ok ==> r == Ok::<Article, AppError>(a)
        &&& !ok ==> (r matches Err(AppError::Internal(m)) && m@ == foreign_key_failed())
    }
}

/// Writes a new draft article. Its slug is the slug of its title; a title
/// whose slug some article has already is refused with `Conflict`. Naming a
/// missing category fails and writes nothing; naming a missing tag fails
/// after the article and the links before that tag were written.
pub fn create(store: &mut Store, input: CreateArticle, now: i64) -> (r: Result<Article, AppError>)
    requires
        old(store).wf(),
    ensures
        final(store).wf(),
        article_created(old(store)@, input, now, final(store)@, r),
{
    let slug = slugify(input.title.as_str());
    if find_slug(&store.articles, slug.as_str()).is_some() {
        return Err(AppError::Conflict(slug_taken_msg(slug.as_str())));
    }
    if category_missing(store, input.category_id) {
        return Err(AppError::Internal(foreign_key_failed_msg()));
    }
    if store.article_seq == i64::MAX {
        return Err(AppError::Internal(store_full_msg()));
    }
    let id = store.article_seq + 1;
    let excerpt = match input.excerpt {
        Some(e) => e,
        None => String::new(),
    };
    let a = Article {
        id,
        slug,
        title: input.title,
        excerpt,
        body: input.body,
        author_name: input.author_name,
        status: ArticleStatus::Draft,
        category_id: input.category_id,
        published_at: None,
        created_at: now,
        updated_at: now,
    };
    let result = a.copy();
    store.insert_article(a);
    let ghost v1 = store@;
    assert(has_id(v1.articles, id)) by {
        assert(v1.articles[v1.articles.len() - 1].id == id);
    }
    match input.tag_ids {
        Some(tids) => {
            if !store.add_tag_links(id, &tids) {
                return Err(AppError::Internal(foreign_key_failed_msg()));
            }
        },
        None => {},
    }
    Ok(result)
}

/// Reads article `id` with its tags and category.
pub fn get_by_id(store: &Store, id: i64) -> (r: Result<ArticleWithTags, AppError>)
    ensures
        match row_with_id(store@.articles, id) {
            Some(a) => r matches Ok(x) && full_article(store@, a, x),
            None => r matches Err(AppError::NotFound(m)) && m@ == id_missing("article"@, id),
        },
{
    match find_id(&store.articles, id) {
        Some(i) => Ok(with_tags(store, &store.articles[i])),
        None => Err(AppError::NotFound(id_missing_msg("article", id))),
    }
}

/// Reads the article with slug `slug`, with its tags and category.
pub fn get_by_slug(store: &Store, slug: &str) -> (r: Result<ArticleWithTags, AppError>)
    ensures
        match row_with_slug(store@.articles, slug@) {
            Some(a) => r matches Ok(x) && full_article(store@, a, x),
            None => r matches Err(AppError::NotFound(m)) && m@ == name_missing("article"@, slug@),
        },
{
    match find_slug(&store.articles, slug) {
        Some(i) => Ok(with_tags(store, &store.articles[i])),
        None => Err(AppError::NotFound(name_missing_msg("article", slug))),
    }
}

/// What `update` does.
pub open spec fn article_updated(v: StoreView, id: i64, input: UpdateArticle, now: i64, w: StoreView, r: Result<Article, AppError>) -> bool {
    let i = index_of_id(v.articles, id);
    if i < 0 {
        &&& r matches Err(AppError::NotFound(m)) && m@ == id_missing("article"@, id)
        &&& w == v
    } else if names_missing_category(v, input.category_id) {
        &&& r matches Err(AppError::Internal(m)) && m@ == foreign_key_failed()
        &&& w == v
    } else {
        let a = w.articles[i];
        &&& coalesced_article(a, v.articles[i], input, now)
        &&& match input.tag_ids {
            None => {
                &&& w == v.with_articles(v.articles.update(i, a))
                &&& r == Ok::<Article, AppError>(a)
            },
            Some(tids) => {
                let (links, ok) = link_tags(links_without(v.links, id), id, tids@, v.tags);
                &&& w == v.with_articles(v.articles.update(i, a)).with_links(links)
                &&& ok ==> r == Ok::<Article, AppError>(a)
                &&& !ok ==> (r matches Err(AppError::Internal(m)) && m@ == foreign_key_failed())
            },
        }
    }
}

/// Changes article `id`: each field that `input` gives replaces the stored
/// one, and given tag ids replace all of its links. The row is updated at
/// `now`. Naming a missing category fails and changes nothing; naming a
/// missing tag fails after the row, and the links before that tag, were
/// written.
pub fn update(store: &mut Store, id: i64, input: UpdateArticle, now: i64) -> (r: Result<Article, AppError>)
    requires
        old(store).wf(),
    ensures
        final(store).wf(),
        article_updated(old(store)@, id, input, now, final(store)@, r),
{
    let idx = match find_id(&store.articles, id) {
        Some(i) => i,
        None => {
            return Err(AppError::NotFound(id_missing_msg("article", id)));
        },
    };
    if category_missing(store, input.category_id) {
        return Err(AppError::Internal(foreign_key_failed_msg()));
    }
    let a = {
        let old_a = &store.articles[idx];
        Article {
            id: old_a.id,
            slug: old_a.slug.clone(),
            title: match input.title {
                Some(t) => t,
                None => old_a.title.clone(),
            },
            excerpt: match input.excerpt {
                Some(t) => t,
                None => old_a.excerpt.clone(),
            },
            body: match input.body {
                Some(t) => t,
                None => old_a.body.clone(),
            },
            author_name: match input.author_name {
                Some(t) => t,
                None => old_a.author_name.clone(),
            },
            status: old_a.status,
            category_id: match input.category_id {
                Some(c) => Some(c),
                None => old_a.category_id,
            },
            published_at: old_a.published_at,
            created_at: old_a.created_at,
            updated_at: now,
        }
    };
    let result = a.copy();
    store.replace_article(idx, a);
    match input.tag_ids {
        Some(tids) => {
            store.remove_links_of(id);
            assert(has_id(store@.articles, id)) by {
                assert(store@.articles[idx as int].id == id);
            }
            if !store.add_tag_links(id, &tids) {
                return Err(AppError::Internal(foreign_key_failed_msg()));
            }
        },
        None => {},
    }
    Ok(result)
}

/// What `publish` does.
pub open spec fn article_published(v: StoreView, id: i64, now: i64, w: StoreView, r: Result<Article, AppError>) -> bool {
    let i = index_of_id(v.articles, id);
    if i < 0 {
        &&& r matches Err(AppError::NotFound(m)) && m@ == id_missing("article"@, id)
        &&& w == v
    } else {
        let a = (Article {
            status: ArticleStatus::Published,
            published_at: Some(now),
            updated_at: now,
            ..v.articles[i]
        });
        &&& w == v.with_articles(v.articles.update(i, a))
        &&& r == Ok::<Article, AppError>(a)
    }
}

/// Publishes article `id`: published and updated at `now`.
pub fn publish(store: &mut Store, id: i64, now: i64) -> (r: Result<Article, AppError>)
    requires
        old(store).wf(),
    ensures
        final(store).wf(),
        article_published(old(store)@, id, now, final(store)@, r),
{
    match find_id(&store.articles, id) {
        Some(idx) => {
            let mut a = store.articles[idx].copy();
            a.status = ArticleStatus::Published;
            a.published_at = Some(now);
            a.updated_at = now;
            let result = a.copy();
            store.replace_article(idx, a);
            Ok(result)
        },
        None => Err(AppError::NotFound(id_missing_msg("article", id))),
    }
}

/// What `archive` does.
pub open spec fn article_archived(v: StoreView, id: i64, now: i64, w: StoreView, r: Result<Article, AppError>) -> bool {
    let i = index_of_id(v.articles, id);
    if i < 0 {
        &&& r matches Err(AppError::NotFound(m)) && m@ == id_missing("article"@, id)
        &&& w == v
    } else {
        let a = (Article { status: ArticleStatus::Archived, updated_at: now, ..v.articles[i] });
        &&& w == v.with_articles(v.articles.update(i, a))
        &&& r == Ok::<Article, AppError>(a)
    }
}

/// Archives article `id`: archived and updated at `now`; its publication
/// time stays.
pub fn archive(store: &mut Store, id: i64, now: i64) -> (r: Result<Article, AppError>)
    requires
        old(store).wf(),
    ensures
        final(store).wf(),
        article_archived(old(store)@, id, now, final(store)@, r),
{
    match find_id(&store.articles, id) {
        Some(idx) => {
            let mut a = store.articles[idx].copy();
            a.status = ArticleStatus::Archived;
            a.updated_at = now;
            let result = a.copy();
            store.replace_article(idx, a);
            Ok(result)
        },
        None => Err(AppError::NotFound(id_missing_msg("article", id))),
    }
}

/// What `delete` does.
pub open spec fn article_deleted(v: StoreView, id: i64, w: StoreView, r: Result<(), AppError>) -> bool {
    let i = index_of_id(v.articles, id);
    if i < 0 {
        &&& r matches Err(AppError::NotFound(m)) && m@ == id_missing("article"@, id)
        &&& w == v
    } else {
        &&& w == v.with_articles(v.articles.remove(i)).with_links(links_without(v.links, id))
        &&& r is Ok
    }
}

/// Removes article `id` with all its links.
pub fn delete(store: &mut Store, id: i64) -> (r: Result<(), AppError>)
    requires
        old(store).wf(),
    ensures
        final(store).wf(),
        article_deleted(old(store)@, id, final(store)@, r),
{
    match find_id(&store.articles, id) {
        Some(idx) => {
            store.remove_article(idx);
            Ok(())
        },
        None => Err(AppError::NotFound(id_missing_msg("article", id))),
    }
}

/// The view of an optional text.
pub open spec fn opt_view(o: Option<String>) -> Option<Seq<char>> {
    match o {
        Some(s) => Some(s@),
        None => None,
    }
}

/// The page that a listing shows: the asked page, at least 1 (page 1 when
/// none is asked).
pub open spec fn page_number(params: ArticleListParams) -> i64 {
    match params.page {
        Some(p) => if p < 1 {
            1
        } else {
            p
        },
        None => 1,
    }
}

/// The rows per page: the asked limit, at most 100 (20 when none is asked).
/// A negative limit is passed on, and then means no limit.
pub open spec fn page_limit(params: ArticleListParams) -> i64 {
    match params.limit {
        Some(l) => if l > 100 {
            100
        } else {
            l
        },
        None => 20,
    }
}

/// How many rows the page skips: `(page - 1) * limit`.
pub open spec fn page_offset(params: ArticleListParams) -> int {
    (page_number(params) - 1) * page_limit(params)
}

/// The skip count fits the store's integers (beyond, the computation
/// overflows).
pub open spec fn page_offset_fits(params: ArticleListParams) -> bool {
    i64::MIN <= page_offset(params) <= i64::MAX
}

/// Whether the skip count of `params` fits the store's integers.
pub fn offset_fits(params: &ArticleListParams) -> (r: bool)
    ensures
        r == page_offset_fits(*params),
{
    let page: i64 = match params.page {
        Some(p) => if p < 1 {
            1
        } else {
            p
        },
        None => 1,
    };
    let limit: i64 = match params.limit {
        Some(l) => if l > 100 {
            100
        } else {
            l
        },
        None => 20,
    };
    (page - 1).checked_mul(limit).is_some()
}

/// Where a page starts in `n` rows: a negative skip counts as none.
pub open spec fn window_start(n: int, offset: int) -> int {
    if offset < 0 {
        0
    } else if offset > n {
        n
    } else {
        offset
    }
}

/// Where a page ends in `n` rows: a negative limit means no limit.
pub open spec fn window_end(n: int, limit: int, offset: int) -> int {
    let start = window_start(n, offset);
    if limit < 0 || start + limit > n {
        n
    } else {
        start + limit
    }
}

/// The rows of `s` that a page of `limit` rows after `offset` rows holds
/// (`LIMIT ? OFFSET ?`).
pub open spec fn window<T>(s: Seq<T>, limit: int, offset: int) -> Seq<T> {
    s.subrange(window_start(s.len() as int, offset), window_end(s.len() as int, limit, offset))
}

/// The articles a listing counts: of status `status` (any status when none
/// is asked), and in the category with slug `category` when one is asked.
pub open spec fn listed(v: StoreView, status: Option<ArticleStatus>, category: Option<Seq<char>>) -> spec_fn(
    Article,
) -> bool {
    |a: Article|
        (status matches Some(s) ==> a.status == s) && (category matches Some(c) ==> (category_of(
            v,
            a.category_id,
        ) matches Some(cat) && cat.slug@ == c))
}

/// Whether an article has the tag with slug `tag`, when one is asked.
pub open spec fn tagged(v: StoreView, tag: Option<Seq<char>>) -> spec_fn(Article) -> bool {
    |a: Article|
        tag matches Some(t) ==> exists|j: int|
            0 <= j < tags_of(v, a.id).len() && (#[trigger] tags_of(v, a.id)[j]).slug@ == t
}

/// The articles that a listing counts, in listing order.
pub open spec fn listed_in_order(v: StoreView, params: ArticleListParams, status: Option<ArticleStatus>) -> Seq<
    Article,
> {
    listing(v.articles.filter(listed(v, status, opt_view(params.category))))
}

/// The articles on the asked page that carry the asked tag.
pub open spec fn listed_page(v: StoreView, params: ArticleListParams, status: Option<ArticleStatus>) -> Seq<
    Article,
> {
    window(listed_in_order(v, params, status), page_limit(params) as int, page_offset(params)).filter(
        tagged(v, opt_view(params.tag)),
    )
}

fn has_tag_slug(tags: &Vec<Tag>, t: &str) -> (r: bool)
    ensures
        r == exists|j: int| 0 <= j < tags@.len() && (#[trigger] tags@[j]).slug@ == t@,
{
    let mut i: usize = 0;
    while i < tags.len()
        invariant
            i <= tags.len(),
            forall|j: int| 0 <= j < i ==> (#[trigger] tags@[j]).slug@ != t@,
        decreases tags.len() - i,
    {
        if str_eq(tags[i].slug.as_str(), t) {
            return true;
        }
        i = i + 1;
    }
    false
}

fn is_listed(store: &Store, a: &Article, status: Option<ArticleStatus>, category: &Option<String>) -> (r: bool)
    ensures
        r == listed(store@, status, opt_view(*category))(*a),
{
    let status_ok = match status {
        Some(s) => a.status == s,
        None => true,
    };
    let category_ok = match category {
        Some(c) => match store.category_of(a.category_id) {
            Some(cat) => str_eq(cat.slug.as_str(), c.as_str()),
            None => false,
        },
        None => true,
    };
    status_ok && category_ok
}

/// The articles of status `status` in category `category`, in listing
/// order, and how many they are.
pub fn counted_in_order(store: &Store, status: Option<ArticleStatus>, category: &Option<String>) -> (r: (
    Vec<Article>,
    i64,
))
    requires
        store.wf(),
    ensures
        r.0@ == listing(store@.articles.filter(listed(store@, status, opt_view(*category)))),
        r.1 == store@.articles.filter(listed(store@, status, opt_view(*category))).len(),
        r.0.len() == r.1,
{
    let ghost v = store@;
    let ghost p = listed(v, status, opt_view(*category));
    let mut counted: Vec<Article> = Vec::new();
    let mut i: usize = 0;
    while i < store.articles.len()
        invariant
            store.wf(),
            v == store@,
            p == listed(v, status, opt_view(*category)),
            i <= store.articles.len(),
            counted@ == store.articles@.take(i as int).filter(p),
            forall|a: int, b: int| 0 <= a < b < counted.len() ==> (#[trigger] counted@[a]).id < (#[trigger] counted@[b]).id,
            forall|k: int| 0 <= k < counted.len() ==> exists|m: int| 0 <= m < i && #[trigger] counted@[k] == store.articles@[m],
        decreases store.articles.len() - i,
    {
        proof {
            lemma_filter_take(store.articles@, i as int, p);
        }
        if is_listed(store, &store.articles[i], status, category) {
            let ghost before = counted@;
            counted.push(store.articles[i].copy());
            proof {
                assert forall|a: int, b: int| 0 <= a < b < counted.len() implies (#[trigger] counted@[a]).id < (#[trigger] counted@[b]).id by {
                    if b == before.len() {
                        let m = choose|m: int| 0 <= m < i && #[trigger] before[a] == store.articles@[m];
                        assert(counted@[a] == before[a]);
                        assert(store@.articles[m].row_id() < store@.articles[i as int].row_id());
                    } else {
                        assert(counted@[a] == before[a] && counted@[b] == before[b]);
                    }
                }
                assert forall|k: int| 0 <= k < counted.len() implies exists|m: int| 0 <= m < i + 1 && #[trigger] counted@[k] == store.articles@[m] by {
                    if k < before.len() {
                        assert(counted@[k] == before[k]);
                        let m = choose|m: int| 0 <= m < i && #[trigger] before[k] == store.articles@[m];
                    } else {
                        assert(counted@[k] == store.articles@[i as int]);
                    }
                }
            }
        }
        i = i + 1;
    }
    proof {
        assert(store.articles@.take(store.articles.len() as int) =~= store.articles@);
        lemma_ids_rising_len(v.articles, v.article_seq);
        v.articles.lemma_filter_len(p);
        assert(keys_distinct(counted@)) by {
            assert forall|a: int, b: int| 0 <= a < counted.len() && 0 <= b < counted.len() && a != b implies !(#[trigger] counted@[a]).same_key(
                #[trigger] counted@[b],
            ) by {
                if a < b {
                    assert(counted@[a].id < counted@[b].id);
                } else {
                    assert(counted@[b].id < counted@[a].id);
                }
            }
        }
    }
    let total = counted.len() as i64;
    (sort_rows(&counted), total)
}

/// Where the page of `limit` rows after `offset` rows starts and ends in
/// `n` rows.
pub fn window_bounds(n: usize, limit: i64, offset: i64) -> (r: (usize, usize))
    ensures
        r.0 == window_start(n as int, offset as int),
        r.1 == window_end(n as int, limit as int, offset as int),
        r.0 <= r.1 <= n,
{
    let start: usize = if offset <= 0 {
        0
    } else if offset as u64 >= n as u64 {
        n
    } else {
        offset as usize
    };
    let end: usize = if limit < 0 {
        n
    } else if limit as u64 >= (n - start) as u64 {
        n
    } else {
        start + limit as usize
    };
    (start, end)
}

/// Lists articles, as the site's listing query does: the articles of status
/// `status` (all articles when none is asked) in the asked category, in
/// listing order (latest publication first), the asked page of them, and of
/// those the ones that carry the asked tag, each with its tags and category.
/// The count is of all articles of that status and category, the tag and
/// the page aside.
pub fn list(store: &Store, params: &ArticleListParams, status: Option<ArticleStatus>) -> (r: Result<
    (Vec<ArticleWithTags>, i64),
    AppError,
>)
    requires
        store.wf(),
        page_offset_fits(*params),
    ensures
        r matches Ok((items, total)) && {
            let rows = listed_page(store@, *params, status);
            &&& total == store@.articles.filter(listed(store@, status, opt_view(params.category))).len()
            &&& items.len() == rows.len()
            &&& forall|k: int| 0 <= k < rows.len() ==> full_article(store@, rows[k], #[trigger] items@[k])
        },
{
    let page: i64 = match params.page {
        Some(p) => if p < 1 {
            1
        } else {
            p
        },
        None => 1,
    };
    let limit: i64 = match params.limit {
        Some(l) => if l > 100 {
            100
        } else {
            l
        },
        None => 20,
    };
    let offset: i64 = (page - 1) * limit;
    let ghost v = store@;
    let (ordered, total) = counted_in_order(store, status, &params.category);
    let (start, end) = window_bounds(ordered.len(), limit, offset);
    let ghost win = ordered@.subrange(start as int, end as int);
    assert(win == window(ordered@, limit as int, offset as int));
    let ghost q = tagged(v, opt_view(params.tag));
    let mut items: Vec<ArticleWithTags> = Vec::new();
    let mut k: usize = start;
    while k < end
        invariant
            store.wf(),
            v == store@,
            q == tagged(v, opt_view(params.tag)),
            start <= k <= end <= ordered.len(),
            win == ordered@.subrange(start as int, end as int),
            items.len() == ordered@.subrange(start as int, k as int).filter(q).len(),
            forall|j: int| 0 <= j < items.len() ==> full_article(v, ordered@.subrange(start as int, k as int).filter(q)[j], #[trigger] items@[j]),
        decreases end - k,
    {
        let ghost sub = ordered@.subrange(start as int, k as int);
        proof {
            assert(ordered@.subrange(start as int, k + 1) =~= sub.push(ordered@[k as int]));
            super::lemma_filter_push(sub, ordered@[k as int], q);
        }
        let a = &ordered[k];
        let tags = store.tags_of(a.id);
        let keep = match &params.tag {
            Some(t) => has_tag_slug(&tags, t.as_str()),
            None => true,
        };
        if keep {
            let ghost before = items@;
            items.push(ArticleWithTags { article: a.copy(), tags, category: store.category_of(a.category_id) });
            proof {
                assert forall|j: int| 0 <= j < items.len() implies full_article(v, ordered@.subrange(start as int, k + 1).filter(q)[j], #[trigger] items@[j]) by {
                    if j < before.len() {
                        assert(items@[j] == before[j]);
                    }
                }
            }
        }
        k = k + 1;
    }
    Ok((items, total))
}

} // verus!
