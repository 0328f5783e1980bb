//! What the store's operations promise of one another.
use vstd::prelude::*;
use crate::common::{CreateCategory, UpdateCategory, Category, Article, ArticleStatus, ArticleListParams, CreateArticle, UpdateArticle, Page, PageStatus, CreatePage, UpdatePage, Setting};
use crate::error::AppError;
use crate::slugs::slugify_result;
use super::{link_tags, links_without, links_without_tag, StoreView, setting_index, key_is, without_category, link_kept, category_of, tags_of};
use super::articles::{article_updated, article_created, article_published, article_deleted, article_archived, listed, listed_page, page_limit, window};
use super::pages::{page_created, page_updated};
use super::tags::tag_deleted;
use super::categories::{category_deleted, category_created, category_updated};
use super::settings::{setting_set, setting_deleted};
use super::order::Listed;
use super::table::{
    Row, first_match, id_is, slug_is, index_of_id, index_of_slug, row_with_id, row_with_slug, has_id, has_slug,
    lemma_first_match, lemma_first_match_is, lemma_first_match_none, lemma_remove_row,
};

verus! {

/// In a table with rising ids, the row at `i` is the row with its id.
proof fn lemma_row_at_is_row_with_id<T: Row>(s: Seq<T>, last: i64, i: int)
    requires
        super::table::ids_rising(s, last),
        0 <= i < s.len(),
    ensures
        index_of_id(s, s[i].row_id()) == i,
        row_with_id(s, s[i].row_id()) == Some(s[i]),
{
    let p = id_is::<T>(s[i].row_id());
    assert forall|j: int| 0 <= j < i implies !p(#[trigger] s[j]) by {
        assert(s[j].row_id() < s[i].row_id());
    }
    lemma_first_match_is(s, p, i);
}

/// In a table with unique slugs, the row at `i` is the row with its slug.
proof fn lemma_row_at_is_row_with_slug<T: Row>(s: Seq<T>, i: int)
    requires
        super::table::slugs_unique(s),
        0 <= i < s.len(),
    ensures
        index_of_slug(s, s[i].row_slug()) == i,
        row_with_slug(s, s[i].row_slug()) == Some(s[i]),
{
    let p = slug_is::<T>(s[i].row_slug());
    assert forall|j: int| 0 <= j < i implies !p(#[trigger] s[j]) by {
        assert(s[j].row_slug() != s[i].row_slug());
    }
    lemma_first_match_is(s, p, i);
}

/// The row that an index search finds holds the searched id.
proof fn lemma_found_id<T: Row>(s: Seq<T>, id: i64)
    requires
        index_of_id(s, id) >= 0,
    ensures
        0 <= index_of_id(s, id) < s.len(),
        s[index_of_id(s, id)].row_id() == id,
{
    lemma_first_match(s, id_is::<T>(id));
}

/// The row that a slug search finds holds the searched slug.
proof fn lemma_found_slug<T: Row>(s: Seq<T>, slug: Seq<char>)
    requires
        index_of_slug(s, slug) >= 0,
    ensures
        0 <= index_of_slug(s, slug) < s.len(),
        s[index_of_slug(s, slug)].row_slug() == slug,
{
    lemma_first_match(s, slug_is::<T>(slug));
}

/// A written article reads back: by its id and by its slug the store gives
/// the row that `create` answered, a draft with the title, body and author
/// it was given.
pub proof fn law_created_article_reads_back(v: StoreView, input: CreateArticle, now: i64, w: StoreView, a: Article)
    requires
        v.wf(),
        w.wf(),
        article_created(v, input, now, w, Ok(a)),
    ensures
        row_with_id(w.articles, a.id) == Some(a),
        row_with_slug(w.articles, a.slug@) == Some(a),
        a.slug@ == slugify_result(input.title@),
        a.status == ArticleStatus::Draft,
        a.title == input.title && a.body == input.body && a.author_name == input.author_name,
        a.category_id == input.category_id,
        a.excerpt@ == (match input.excerpt {
            Some(e) => e@,
            None => Seq::<char>::empty(),
        }),
        a.published_at is None && a.created_at == now && a.updated_at == now,
        a.id == v.article_seq + 1,
{
    let i = w.articles.len() - 1;
    assert(w.articles[i] == a);
    lemma_row_at_is_row_with_id(w.articles, w.article_seq, i);
    lemma_row_at_is_row_with_slug(w.articles, i);
}

/// Two articles cannot share a title's slug: once an article is written, a
/// second one whose title has the same slug is refused with `Conflict` and
/// the store stays as it was.
pub proof fn law_second_title_conflicts(
    v: StoreView,
    first: CreateArticle,
    now1: i64,
    w: StoreView,
    a: Article,
    second: CreateArticle,
    now2: i64,
    w2: StoreView,
    r2: Result<Article, AppError>,
)
    requires
        v.wf(),
        w.wf(),
        article_created(v, first, now1, w, Ok(a)),
        slugify_result(second.title@) == slugify_result(first.title@),
        article_created(w, second, now2, w2, r2),
    ensures
        r2 matches Err(AppError::Conflict(_)),
        w2 == w,
{
    let i = w.articles.len() - 1;
    assert(w.articles[i] == a);
    assert(has_slug(w.articles, slugify_result(second.title@)));
}

/// A removed article is gone: no row has its id (so reading it answers
/// `NotFound`) and no link of it is left.
pub proof fn law_deleted_article_is_gone(v: StoreView, id: i64, w: StoreView)
    requires
        v.wf(),
        article_deleted(v, id, w, Ok(())),
    ensures
        row_with_id(w.articles, id) is None,
        forall|k: int| 0 <= k < w.links.len() ==> (#[trigger] w.links[k]).0 != id,
{
    let i = index_of_id(v.articles, id);
    lemma_found_id(v.articles, id);
    lemma_remove_row(v.articles, i, v.article_seq);
    assert forall|j: int| 0 <= j < w.articles.len() implies !id_is::<Article>(id)(#[trigger] w.articles[j]) by {
        assert(!has_id(w.articles, id));
    }
    lemma_first_match_none(w.articles, id_is::<Article>(id));
    assert forall|k: int| 0 <= k < w.links.len() implies (#[trigger] w.links[k]).0 != id by {
        v.links.lemma_filter_pred(link_kept(false, id), k);
    }
}

/// A published article shows as published: by its id and by its slug the
/// store gives the row that `publish` answered, published at that time.
pub proof fn law_published_article_reads_back(v: StoreView, id: i64, now: i64, w: StoreView, a: Article)
    requires
        v.wf(),
        w.wf(),
        article_published(v, id, now, w, Ok(a)),
    ensures
        row_with_id(w.articles, id) == Some(a),
        row_with_slug(w.articles, a.slug@) == Some(a),
        a.status == ArticleStatus::Published,
        a.published_at == Some(now),
{
    let i = index_of_id(v.articles, id);
    lemma_found_id(v.articles, id);
    assert(w.articles[i] == a);
    lemma_row_at_is_row_with_id(w.articles, w.article_seq, i);
    lemma_row_at_is_row_with_slug(w.articles, i);
}

/// A written page reads back by its id and by its slug.
pub proof fn law_created_page_reads_back(v: StoreView, input: CreatePage, now: i64, w: StoreView, p: Page)
    requires
        v.wf(),
        w.wf(),
        page_created(v, input, now, w, Ok(p)),
    ensures
        row_with_id(w.pages, p.id) == Some(p),
        row_with_slug(w.pages, input.slug@) == Some(p),
{
    let i = w.pages.len() - 1;
    assert(w.pages[i] == p);
    lemma_row_at_is_row_with_id(w.pages, w.page_seq, i);
    lemma_row_at_is_row_with_slug(w.pages, i);
}

/// Two pages cannot share a slug: once a page is written, a second one
/// with its slug is refused with `Conflict` and the store stays as it was.
pub proof fn law_second_page_slug_conflicts(
    v: StoreView,
    first: CreatePage,
    now1: i64,
    w: StoreView,
    p: Page,
    second: CreatePage,
    now2: i64,
    w2: StoreView,
    r2: Result<Page, AppError>,
)
    requires
        v.wf(),
        w.wf(),
        page_created(v, first, now1, w, Ok(p)),
        second.slug@ == first.slug@,
        page_created(w, second, now2, w2, r2),
    ensures
        r2 matches Err(AppError::Conflict(_)),
        w2 == w,
{
    let i = w.pages.len() - 1;
    assert(w.pages[i] == p);
    assert(has_slug(w.pages, second.slug@));
}

/// A setting reads back: after `set`, the setting with that key holds the
/// value, and the number of settings grew by one only for a new key.
pub proof fn law_setting_reads_back(v: StoreView, key: Seq<char>, value: Seq<char>, w: StoreView, s: Setting)
    requires
        v.wf(),
        setting_set(v, key, value, w, Ok(s)),
    ensures
        setting_index(w.settings, key) >= 0,
        w.settings[setting_index(w.settings, key)].value@ == value,
        w.settings.len() == v.settings.len() + (if setting_index(v.settings, key) >= 0 {
            0int
        } else {
            1int
        }),
{
    let p = key_is(key);
    lemma_first_match(v.settings, p);
    let i = setting_index(v.settings, key);
    if i >= 0 {
        assert forall|j: int| 0 <= j < i implies !p(#[trigger] w.settings[j]) by {
            assert(w.settings[j] == v.settings[j]);
        }
        lemma_first_match_is(w.settings, p, i);
    } else {
        let n = v.settings.len() as int;
        assert forall|j: int| 0 <= j < n implies !p(#[trigger] w.settings[j]) by {
            assert(w.settings[j] == v.settings[j]);
        }
        lemma_first_match_is(w.settings, p, n);
    }
}

/// A removed setting is gone, so removing it again answers `NotFound`.
pub proof fn law_deleted_setting_is_gone(v: StoreView, key: Seq<char>, w: StoreView)
    requires
        v.wf(),
        setting_deleted(v, key, w, Ok(())),
    ensures
        setting_index(w.settings, key) == -1,
{
    let p = key_is(key);
    lemma_first_match(v.settings, p);
    let i = setting_index(v.settings, key);
    assert forall|j: int| 0 <= j < w.settings.len() implies !p(#[trigger] w.settings[j]) by {
        let j1 = if j < i { j } else { j + 1 };
        assert(w.settings[j] == v.settings[j1]);
        assert(j1 != i);
    }
    lemma_first_match_none(w.settings, p);
}

/// A removed tag is gone: no tag has its slug, and no article keeps a link
/// to it.
pub proof fn law_deleted_tag_is_gone(v: StoreView, slug: Seq<char>, w: StoreView)
    requires
        v.wf(),
        tag_deleted(v, slug, w, Ok(())),
    ensures
        !has_slug(w.tags, slug),
        forall|k: int| 0 <= k < w.links.len() ==> (#[trigger] w.links[k]).1 != v.tags[index_of_slug(v.tags, slug)].id,
{
    let i = index_of_slug(v.tags, slug);
    lemma_found_slug(v.tags, slug);
    assert(!has_slug(w.tags, slug)) by {
        if has_slug(w.tags, slug) {
            let j = choose|j: int| 0 <= j < w.tags.len() && (#[trigger] w.tags[j]).row_slug() == slug;
            let j1 = if j < i { j } else { j + 1 };
            assert(w.tags[j] == v.tags[j1]);
        }
    }
    assert forall|k: int| 0 <= k < w.links.len() implies (#[trigger] w.links[k]).1 != v.tags[i].id by {
        v.links.lemma_filter_pred(link_kept(true, v.tags[i].id), k);
    }
}

/// A removed category is gone, and no article is filed under it any more.
pub proof fn law_deleted_category_detaches(v: StoreView, slug: Seq<char>, w: StoreView)
    requires
        v.wf(),
        category_deleted(v, slug, w, Ok(())),
    ensures
        !has_slug(w.categories, slug),
        forall|k: int| 0 <= k < w.articles.len() ==> (#[trigger] w.articles[k]).category_id
            != Some(v.categories[index_of_slug(v.categories, slug)].id),
{
    let i = index_of_slug(v.categories, slug);
    lemma_found_slug(v.categories, slug);
    assert(!has_slug(w.categories, slug)) by {
        if has_slug(w.categories, slug) {
            let j = choose|j: int| 0 <= j < w.categories.len() && (#[trigger] w.categories[j]).row_slug() == slug;
            let j1 = if j < i { j } else { j + 1 };
            assert(w.categories[j] == v.categories[j1]);
        }
    }
    let cid = v.categories[i].id;
    assert forall|k: int| 0 <= k < w.articles.len() implies (#[trigger] w.articles[k]).category_id != Some(cid) by {
        assert(w.articles[k] == without_category(cid)(v.articles[k]));
    }
}

proof fn lemma_filter_all<A>(s: Seq<A>, p: spec_fn(A) -> bool)
    requires
        forall|x: A| #[trigger] p(x),
    ensures
        s.filter(p) == s,
    decreases s.len(),
{
    reveal_with_fuel(Seq::<_>::filter, 1);
    if s.len() > 0 {
        lemma_filter_all(s.drop_last(), p);
        assert(s.drop_last().push(s.last()) =~= s);
    }
}

/// A listing that asks for no status and no category counts every article.
pub proof fn law_unfiltered_listing_counts_all(v: StoreView)
    ensures
        v.articles.filter(listed(v, None, None)) == v.articles,
{
    lemma_filter_all(v.articles, listed(v, None, None));
}


/// Article ids are never given twice: after an article is removed, an
/// article written later gets a greater id than the removed one had.
pub proof fn law_removed_article_id_not_reused(
    v: StoreView,
    id: i64,
    w: StoreView,
    input: CreateArticle,
    now: i64,
    w2: StoreView,
    a: Article,
)
    requires
        v.wf(),
        article_deleted(v, id, w, Ok(())),
        article_created(w, input, now, w2, Ok(a)),
    ensures
        a.id > id,
{
    let i = index_of_id(v.articles, id);
    lemma_found_id(v.articles, id);
    assert(v.articles[i].row_id() <= v.article_seq);
}

/// A page of a listing never holds more rows than its limit, which is at
/// most 100.
pub proof fn law_page_holds_at_most_limit(v: StoreView, params: ArticleListParams, status: Option<ArticleStatus>)
    requires
        page_limit(params) >= 0,
    ensures
        listed_page(v, params, status).len() <= page_limit(params) <= 100,
{
    let rows = super::articles::listed_in_order(v, params, status);
    let win = window(rows, page_limit(params) as int, super::articles::page_offset(params));
    win.lemma_filter_len(super::articles::tagged(v, super::articles::opt_view(params.tag)));
}


/// Filtering keeps ids rising.
proof fn lemma_filter_ids_rise(s: Seq<Article>, p: spec_fn(Article) -> bool)
    requires
        forall|i: int, j: int| 0 <= i < j < s.len() ==> #[trigger] s[i].id < #[trigger] s[j].id,
    ensures
        forall|i: int, j: int| 0 <= i < j < s.filter(p).len() ==> #[trigger] s.filter(p)[i].id
            < #[trigger] s.filter(p)[j].id,
    decreases s.len(),
{
    reveal_with_fuel(Seq::<_>::filter, 1);
    if s.len() > 0 {
        let s0 = s.drop_last();
        lemma_filter_ids_rise(s0, p);
        let f0 = s0.filter(p);
        let f = s.filter(p);
        if p(s.last()) {
            assert(f == f0.push(s.last()));
            assert forall|i: int, j: int| 0 <= i < j < f.len() implies #[trigger] f[i].id < #[trigger] f[j].id by {
                if j == f.len() - 1 {
                    assert(f0.contains(f[i]));
                    s0.lemma_filter_contains_rev(p, f[i]);
                    let m = choose|m: int| 0 <= m < s0.len() && s0[m] == f[i];
                    assert(s[m] == f[i]);
                } else {
                    assert(f[i] == f0[i] && f[j] == f0[j]);
                }
            }
        } else {
            assert(f == f0);
        }
    }
}

/// An archived article leaves the published listing: no page of the public
/// listing holds an article with its id, and its publication time stays.
pub proof fn law_archived_article_leaves_published_listing(
    v: StoreView,
    id: i64,
    now: i64,
    w: StoreView,
    a: Article,
    params: ArticleListParams,
)
    requires
        v.wf(),
        w.wf(),
        article_archived(v, id, now, w, Ok(a)),
    ensures
        forall|k: int| 0 <= k < listed_page(w, params, Some(ArticleStatus::Published)).len() ==> (
        #[trigger] listed_page(w, params, Some(ArticleStatus::Published))[k]).id != id,
        a.published_at == v.articles[index_of_id(v.articles, id)].published_at,
{
    let i = index_of_id(v.articles, id);
    lemma_found_id(v.articles, id);
    let pl = listed(w, Some(ArticleStatus::Published), super::articles::opt_view(params.category));
    let f = w.articles.filter(pl);
    assert forall|x: int, y: int| 0 <= x < y < w.articles.len() implies #[trigger] w.articles[x].id
        < #[trigger] w.articles[y].id by {
        assert(w.articles[x].row_id() < w.articles[y].row_id());
    }
    lemma_filter_ids_rise(w.articles, pl);
    assert(super::order::keys_distinct(f)) by {
        assert forall|x: int, y: int| 0 <= x < f.len() && 0 <= y < f.len() && x != y implies !(
        #[trigger] f[x]).same_key(#[trigger] f[y]) by {
            if x < y {
                assert(f[x].id < f[y].id);
            } else {
                assert(f[y].id < f[x].id);
            }
        }
    }
    super::order::lemma_listing_exists(f);
    let lst = super::order::listing(f);
    let win = window(lst, page_limit(params) as int, super::articles::page_offset(params));
    let q = super::articles::tagged(w, super::articles::opt_view(params.tag));
    let page = win.filter(q);
    assert forall|k: int| 0 <= k < page.len() implies (#[trigger] page[k]).id != id by {
        assert(page.contains(page[k]));
        win.lemma_filter_contains_rev(q, page[k]);
        let m = choose|m: int| 0 <= m < win.len() && win[m] == page[k];
        let st = super::articles::window_start(lst.len() as int, super::articles::page_offset(params));
        assert(lst[st + m] == page[k]);
        assert(lst.contains(page[k]));
        assert(f.contains(page[k]));
        let n = choose|n: int| 0 <= n < f.len() && f[n] == page[k];
        w.articles.lemma_filter_pred(pl, n);
        w.articles.lemma_filter_contains_rev(pl, page[k]);
        let o = choose|o: int| 0 <= o < w.articles.len() && w.articles[o] == page[k];
        if page[k].id == id {
            assert(w.articles[i].id == id);
            if o < i {
                assert(w.articles[o].row_id() < w.articles[i].row_id());
            } else if o > i {
                assert(w.articles[i].row_id() < w.articles[o].row_id());
            }
            assert(w.articles[o].status == ArticleStatus::Archived);
        }
    }
}


/// Setting a value twice is setting it once: the second `set` of the same
/// key and value leaves every setting's key and value as the first left
/// them, and the rest of the store as it was.
pub proof fn law_setting_set_twice_is_set_once(
    v: StoreView,
    key: Seq<char>,
    value: Seq<char>,
    w: StoreView,
    s1: Setting,
    w2: StoreView,
    s2: Setting,
)
    requires
        v.wf(),
        setting_set(v, key, value, w, Ok(s1)),
        setting_set(w, key, value, w2, Ok(s2)),
    ensures
        w2.settings.len() == w.settings.len(),
        forall|j: int| 0 <= j < w.settings.len() ==> (#[trigger] w2.settings[j]).key@ == w.settings[j].key@
            && w2.settings[j].value@ == w.settings[j].value@,
        w2.with_settings(w.settings) == w,
{
    law_setting_reads_back(v, key, value, w, s1);
    let i = setting_index(w.settings, key);
    lemma_first_match(w.settings, key_is(key));
    assert(w.settings[i].key@ == key);
    assert(w2.settings == w.settings.update(i, s2));
}


/// The rows that a listing counts, in the store's order, keep rising ids
/// and so distinct keys.
proof fn lemma_counted_keys_distinct(v: StoreView, p: spec_fn(Article) -> bool)
    requires
        v.wf(),
    ensures
        super::order::keys_distinct(v.articles.filter(p)),
{
    assert forall|x: int, y: int| 0 <= x < y < v.articles.len() implies #[trigger] v.articles[x].id
        < #[trigger] v.articles[y].id by {
        assert(v.articles[x].row_id() < v.articles[y].row_id());
    }
    lemma_filter_ids_rise(v.articles, p);
    let f = v.articles.filter(p);
    assert forall|x: int, y: int| 0 <= x < f.len() && 0 <= y < f.len() && x != y implies !(
    #[trigger] f[x]).same_key(#[trigger] f[y]) by {
        if x < y {
            assert(f[x].id < f[y].id);
        } else {
            assert(f[y].id < f[x].id);
        }
    }
}

/// A listing counts exactly the articles of the asked status (any status
/// when none is asked) that are filed under the category with the asked
/// slug (any article when none is asked).
pub proof fn law_listing_counts_its_filters(v: StoreView, params: ArticleListParams, status: Option<ArticleStatus>)
    requires
        v.wf(),
    ensures
        forall|k: int| 0 <= k < v.articles.filter(listed(v, status, super::articles::opt_view(params.category))).len() ==> {
            let a = #[trigger] v.articles.filter(listed(v, status, super::articles::opt_view(params.category)))[k];
            &&& v.articles.contains(a)
            &&& (status matches Some(s) ==> a.status == s)
            &&& (params.category matches Some(c) ==> (category_of(v, a.category_id) matches Some(cat)
                && cat.slug@ == c@))
        },
        forall|j: int| 0 <= j < v.articles.len() && (status matches Some(s) ==> (#[trigger] v.articles[j]).status == s)
            && (params.category matches Some(c) ==> (category_of(v, v.articles[j].category_id) matches Some(cat)
            && cat.slug@ == c@)) ==> v.articles.filter(listed(v, status, super::articles::opt_view(params.category))).contains(
            v.articles[j],
        ),
{
    let pl = listed(v, status, super::articles::opt_view(params.category));
    let f = v.articles.filter(pl);
    assert forall|k: int| 0 <= k < f.len() implies {
        let a = #[trigger] f[k];
        &&& v.articles.contains(a)
        &&& (status matches Some(s) ==> a.status == s)
        &&& (params.category matches Some(c) ==> (category_of(v, a.category_id) matches Some(cat)
            && cat.slug@ == c@))
    } by {
        v.articles.lemma_filter_pred(pl, k);
        assert(f.contains(f[k]));
        v.articles.lemma_filter_contains_rev(pl, f[k]);
    }
    assert forall|j: int| 0 <= j < v.articles.len() && (status matches Some(s) ==> (#[trigger] v.articles[j]).status
        == s) && (params.category matches Some(c) ==> (category_of(v, v.articles[j].category_id) matches Some(cat)
        && cat.slug@ == c@)) implies f.contains(v.articles[j]) by {
        assert(pl(v.articles[j]));
        v.articles.lemma_filter_contains(pl, j);
    }
}

/// Every article on a page of a listing is an article of the store, of the
/// asked status, filed under the category with the asked slug, and carries
/// a tag with the asked slug (each when asked); and every article of the
/// page's rows that carries the asked tag is shown.
pub proof fn law_listed_page_keeps_its_filters(v: StoreView, params: ArticleListParams, status: Option<ArticleStatus>)
    requires
        v.wf(),
    ensures
        forall|k: int| 0 <= k < listed_page(v, params, status).len() ==> {
            let a = #[trigger] listed_page(v, params, status)[k];
            &&& v.articles.contains(a)
            &&& (status matches Some(s) ==> a.status == s)
            &&& (params.category matches Some(c) ==> (category_of(v, a.category_id) matches Some(cat)
                && cat.slug@ == c@))
            &&& (params.tag matches Some(t) ==> exists|j: int|
                0 <= j < tags_of(v, a.id).len() && (#[trigger] tags_of(v, a.id)[j]).slug@ == t@)
        },
{
    law_listing_counts_its_filters(v, params, status);
    let pl = listed(v, status, super::articles::opt_view(params.category));
    let f = v.articles.filter(pl);
    lemma_counted_keys_distinct(v, pl);
    super::order::lemma_listing_exists(f);
    let lst = super::order::listing(f);
    let win = window(lst, page_limit(params) as int, super::articles::page_offset(params));
    let q = super::articles::tagged(v, super::articles::opt_view(params.tag));
    let page = win.filter(q);
    assert forall|k: int| 0 <= k < page.len() implies {
        let a = #[trigger] page[k];
        &&& v.articles.contains(a)
        &&& (status matches Some(s) ==> a.status == s)
        &&& (params.category matches Some(c) ==> (category_of(v, a.category_id) matches Some(cat)
            && cat.slug@ == c@))
        &&& (params.tag matches Some(t) ==> exists|j: int|
            0 <= j < tags_of(v, a.id).len() && (#[trigger] tags_of(v, a.id)[j]).slug@ == t@)
    } by {
        win.lemma_filter_pred(q, k);
        assert(page.contains(page[k]));
        win.lemma_filter_contains_rev(q, page[k]);
        let m = choose|m: int| 0 <= m < win.len() && win[m] == page[k];
        let st = super::articles::window_start(lst.len() as int, super::articles::page_offset(params));
        assert(lst[st + m] == page[k]);
        assert(lst.contains(page[k]));
        assert(f.contains(page[k]));
        let n = choose|n: int| 0 <= n < f.len() && f[n] == page[k];
        assert(f[n] == page[k]);
    }
}

/// The published articles of a tag all carry that tag, and are published.
pub proof fn law_articles_of_a_tag_carry_it(v: StoreView, slug: String)
    requires
        v.wf(),
    ensures
        forall|k: int| 0 <= k < listed_page(v, crate::api::public::tags::tag_params(slug), Some(ArticleStatus::Published)).len() ==> {
            let a = #[trigger] listed_page(v, crate::api::public::tags::tag_params(slug), Some(ArticleStatus::Published))[k];
            &&& a.status == ArticleStatus::Published
            &&& exists|j: int| 0 <= j < tags_of(v, a.id).len() && (#[trigger] tags_of(v, a.id)[j]).slug@ == slug@
        },
{
    law_listed_page_keeps_its_filters(v, crate::api::public::tags::tag_params(slug), Some(ArticleStatus::Published));
}

/// Removing a category takes exactly its articles out of it: an article
/// filed under it loses its category and nothing else, and every other
/// article stays as it was.
pub proof fn law_removed_category_touches_only_its_articles(v: StoreView, slug: Seq<char>, w: StoreView)
    requires
        v.wf(),
        category_deleted(v, slug, w, Ok(())),
    ensures
        w.articles.len() == v.articles.len(),
        forall|k: int| 0 <= k < v.articles.len() ==> {
            let cid = v.categories[index_of_slug(v.categories, slug)].id;
            &&& (#[trigger] v.articles[k]).category_id != Some(cid) ==> w.articles[k] == v.articles[k]
            &&& v.articles[k].category_id == Some(cid) ==> w.articles[k] == (Article { category_id: None, ..v.articles[k] })
        },
{
    let i = index_of_slug(v.categories, slug);
    lemma_found_slug(v.categories, slug);
    let cid = v.categories[i].id;
    assert forall|k: int| 0 <= k < v.articles.len() implies {
        &&& (#[trigger] v.articles[k]).category_id != Some(cid) ==> w.articles[k] == v.articles[k]
        &&& v.articles[k].category_id == Some(cid) ==> w.articles[k] == (Article { category_id: None, ..v.articles[k] })
    } by {
        assert(w.articles[k] == without_category(cid)(v.articles[k]));
    }
}

/// Changing an article writes exactly the fields that the input gives: each
/// given field takes the given value, each field not given (the category
/// among them) keeps its stored value, and the slug, status and times of
/// creation and publication stay.
pub proof fn law_article_update_writes_given_fields(
    v: StoreView,
    id: i64,
    input: UpdateArticle,
    now: i64,
    w: StoreView,
    a: Article,
)
    requires
        article_updated(v, id, input, now, w, Ok(a)),
    ensures
        index_of_id(v.articles, id) >= 0,
        ({
            let old = v.articles[index_of_id(v.articles, id)];
            &&& a.id == old.id && a.slug == old.slug && a.status == old.status
            &&& a.published_at == old.published_at && a.created_at == old.created_at && a.updated_at == now
            &&& (input.title matches Some(t) ==> a.title == t) && (input.title is None ==> a.title == old.title)
            &&& (input.excerpt matches Some(t) ==> a.excerpt == t) && (input.excerpt is None ==> a.excerpt == old.excerpt)
            &&& (input.body matches Some(t) ==> a.body == t) && (input.body is None ==> a.body == old.body)
            &&& (input.author_name matches Some(t) ==> a.author_name == t) && (input.author_name is None
                ==> a.author_name == old.author_name)
            &&& (input.category_id matches Some(c) ==> a.category_id == Some(c)) && (input.category_id is None
                ==> a.category_id == old.category_id)
            &&& w.articles[index_of_id(v.articles, id)] == a
        }),
{
}

/// Changing a page writes exactly the title and body that the input gives;
/// its slug, status and creation time stay, so a published page stays
/// published and is read by its slug as the changed page.
pub proof fn law_page_update_keeps_status(v: StoreView, id: i64, input: UpdatePage, now: i64, w: StoreView, p: Page)
    requires
        v.wf(),
        w.wf(),
        page_updated(v, id, input, now, w, Ok(p)),
    ensures
        index_of_id(v.pages, id) >= 0,
        ({
            let old = v.pages[index_of_id(v.pages, id)];
            &&& p.id == old.id && p.slug == old.slug && p.status == old.status && p.created_at == old.created_at
            &&& p.updated_at == now
            &&& (input.title matches Some(t) ==> p.title == t) && (input.title is None ==> p.title == old.title)
            &&& (input.body matches Some(b) ==> p.body == b) && (input.body is None ==> p.body == old.body)
            &&& row_with_slug(w.pages, old.slug@) == Some(p)
            &&& old.status == PageStatus::Published ==> p.status == PageStatus::Published
        }),
{
    let i = index_of_id(v.pages, id);
    lemma_found_id(v.pages, id);
    assert(w.pages[i] == p);
    lemma_row_at_is_row_with_slug(w.pages, i);
}


/// A new page is a draft with the title and slug it was given, its body
/// (empty when none is given), written at `now`.
pub proof fn law_created_page_is_a_draft(v: StoreView, input: CreatePage, now: i64, w: StoreView, p: Page)
    requires
        page_created(v, input, now, w, Ok(p)),
    ensures
        p.status == PageStatus::Draft,
        p.slug == input.slug && p.title == input.title,
        p.body@ == (match input.body {
            Some(b) => b@,
            None => Seq::<char>::empty(),
        }),
        p.created_at == now && p.updated_at == now,
        p.id == v.page_seq + 1,
        w.pages == v.pages.push(p),
{
}

/// A new category gets the slug it is given, else the slug of its name, and
/// its description (empty when none is given).
pub proof fn law_created_category_slug(v: StoreView, input: CreateCategory, w: StoreView, c: Category)
    requires
        category_created(v, input, w, Ok(c)),
    ensures
        c.slug@ == (match input.slug {
            Some(s) => s@,
            None => slugify_result(input.name@),
        }),
        c.name == input.name,
        c.description@ == (match input.description {
            Some(d) => d@,
            None => Seq::<char>::empty(),
        }),
        c.id == v.category_seq + 1,
        w.categories == v.categories.push(c),
        w.articles == v.articles,
{
}

/// Changing a category writes exactly the name and description that the
/// input gives; its id and slug stay.
pub proof fn law_category_update_writes_given_fields(v: StoreView, id: i64, input: UpdateCategory, w: StoreView, c: Category)
    requires
        category_updated(v, id, input, w, Ok(c)),
    ensures
        index_of_id(v.categories, id) >= 0,
        ({
            let old = v.categories[index_of_id(v.categories, id)];
            &&& c.id == old.id && c.slug == old.slug
            &&& (input.name matches Some(n) ==> c.name == n) && (input.name is None ==> c.name == old.name)
            &&& (input.description matches Some(d) ==> c.description == d) && (input.description is None
                ==> c.description == old.description)
            &&& w.articles == v.articles
        }),
{
}

/// Linking tags one after the other keeps every link that was there, adds
/// only links of the article to listed tags, and, when it goes through,
/// links the article to every listed tag.
proof fn lemma_link_tags(links: Seq<(i64, i64)>, aid: i64, tids: Seq<i64>, tags: Seq<super::super::common::Tag>)
    ensures
        forall|l: (i64, i64)| links.contains(l) ==> #[trigger] link_tags(links, aid, tids, tags).0.contains(l),
        forall|l: (i64, i64)| #[trigger] link_tags(links, aid, tids, tags).0.contains(l) ==> links.contains(l) || (
        l.0 == aid && tids.contains(l.1)),
        link_tags(links, aid, tids, tags).1 ==> forall|j: int| 0 <= j < tids.len() ==> link_tags(links, aid, tids, tags).0.contains(
            (aid, #[trigger] tids[j]),
        ),
    decreases tids.len(),
{
    if tids.len() > 0 && has_id(tags, tids[0]) {
        let rest = tids.drop_first();
        let next = if links.contains((aid, tids[0])) {
            links
        } else {
            links.push((aid, tids[0]))
        };
        lemma_link_tags(next, aid, rest, tags);
        let r = link_tags(links, aid, tids, tags);
        assert(r == link_tags(next, aid, rest, tags));
        assert(next.contains((aid, tids[0]))) by {
            if !links.contains((aid, tids[0])) {
                assert(next[links.len() as int] == (aid, tids[0]));
            }
        }
        assert forall|l: (i64, i64)| links.contains(l) implies #[trigger] r.0.contains(l) by {
            let k = choose|k: int| 0 <= k < links.len() && links[k] == l;
            assert(next[k] == l);
        }
        assert forall|l: (i64, i64)| #[trigger] r.0.contains(l) implies links.contains(l) || (l.0 == aid
            && tids.contains(l.1)) by {
            if next.contains(l) && !links.contains(l) {
                let k = choose|k: int| 0 <= k < next.len() && next[k] == l;
                assert(l == (aid, tids[0]));
                assert(tids[0] == l.1);
            } else if !next.contains(l) {
                assert(rest.contains(l.1));
                let k = choose|k: int| 0 <= k < rest.len() && rest[k] == l.1;
                assert(tids[k + 1] == l.1);
            }
        }
        if r.1 {
            assert forall|j: int| 0 <= j < tids.len() implies r.0.contains((aid, #[trigger] tids[j])) by {
                if j > 0 {
                    assert(rest[j - 1] == tids[j]);
                }
            }
        }
    }
}

/// A new article is linked to every tag it names (when all are found), and
/// no other link changes: the links there before stay, and the new ones
/// join the new article to named tags.
pub proof fn law_created_article_links_its_tags(v: StoreView, input: CreateArticle, now: i64, w: StoreView, a: Article)
    requires
        article_created(v, input, now, w, Ok(a)),
    ensures
        forall|l: (i64, i64)| v.links.contains(l) ==> #[trigger] w.links.contains(l),
        forall|l: (i64, i64)| #[trigger] w.links.contains(l) && !v.links.contains(l) ==> l.0 == a.id && (
        input.tag_ids matches Some(t) && t@.contains(l.1)),
        input.tag_ids matches Some(t) ==> forall|j: int| 0 <= j < t@.len() ==> w.links.contains(
            (a.id, #[trigger] t@[j]),
        ),
{
    let tids = super::articles::opt_ids(input.tag_ids);
    lemma_link_tags(v.links, a.id, tids, v.tags);
}

/// Giving an article tag ids replaces its links: when all are found, the
/// article is linked to exactly the named tags, and every other article's
/// links stay as they were.
pub proof fn law_updated_article_tags_are_replaced(
    v: StoreView,
    id: i64,
    input: UpdateArticle,
    now: i64,
    w: StoreView,
    a: Article,
    tids: Vec<i64>,
)
    requires
        article_updated(v, id, input, now, w, Ok(a)),
        input.tag_ids == Some(tids),
    ensures
        forall|t: i64| #[trigger] w.links.contains((id, t)) <==> tids@.contains(t),
        forall|l: (i64, i64)| l.0 != id ==> (#[trigger] w.links.contains(l) <==> v.links.contains(l)),
{
    let base = links_without(v.links, id);
    lemma_link_tags(base, id, tids@, v.tags);
    assert forall|l: (i64, i64)| base.contains(l) <==> (v.links.contains(l) && l.0 != id) by {
        if base.contains(l) {
            v.links.lemma_filter_contains_rev(link_kept(false, id), l);
            let k = choose|k: int| 0 <= k < base.len() && base[k] == l;
            v.links.lemma_filter_pred(link_kept(false, id), k);
        }
        if v.links.contains(l) && l.0 != id {
            let k = choose|k: int| 0 <= k < v.links.len() && v.links[k] == l;
            v.links.lemma_filter_contains(link_kept(false, id), k);
        }
    }
    assert forall|t: i64| #[trigger] w.links.contains((id, t)) <==> tids@.contains(t) by {
        if tids@.contains(t) {
            let j = choose|j: int| 0 <= j < tids@.len() && tids@[j] == t;
            assert(w.links.contains((id, tids@[j])));
        }
        if w.links.contains((id, t)) {
            assert(!base.contains((id, t)));
        }
    }
}

/// Removing a tag removes exactly its links: every link of another tag stays.
pub proof fn law_removed_tag_keeps_other_links(v: StoreView, slug: Seq<char>, w: StoreView)
    requires
        v.wf(),
        tag_deleted(v, slug, w, Ok(())),
    ensures
        forall|l: (i64, i64)| #[trigger] v.links.contains(l) && l.1 != v.tags[index_of_slug(v.tags, slug)].id
            ==> w.links.contains(l),
        w.articles == v.articles,
{
    let i = index_of_slug(v.tags, slug);
    let tid = v.tags[i].id;
    assert forall|l: (i64, i64)| #[trigger] v.links.contains(l) && l.1 != tid implies w.links.contains(l) by {
        let k = choose|k: int| 0 <= k < v.links.len() && v.links[k] == l;
        v.links.lemma_filter_contains(link_kept(true, tid), k);
    }
}

/// Removing an article removes exactly that article and its links: every
/// other article and every link of another article stays.
pub proof fn law_removed_article_keeps_the_rest(v: StoreView, id: i64, w: StoreView)
    requires
        v.wf(),
        article_deleted(v, id, w, Ok(())),
    ensures
        forall|a: Article| #[trigger] v.articles.contains(a) && a.id != id ==> w.articles.contains(a),
        forall|l: (i64, i64)| #[trigger] v.links.contains(l) && l.0 != id ==> w.links.contains(l),
        w.articles.len() == v.articles.len() - 1,
{
    let i = index_of_id(v.articles, id);
    lemma_found_id(v.articles, id);
    assert forall|a: Article| #[trigger] v.articles.contains(a) && a.id != id implies w.articles.contains(a) by {
        let k = choose|k: int| 0 <= k < v.articles.len() && v.articles[k] == a;
        if k < i {
            assert(w.articles[k] == a);
        } else {
            assert(w.articles[k - 1] == a);
        }
    }
    assert forall|l: (i64, i64)| #[trigger] v.links.contains(l) && l.0 != id implies w.links.contains(l) by {
        let k = choose|k: int| 0 <= k < v.links.len() && v.links[k] == l;
        v.links.lemma_filter_contains(link_kept(false, id), k);
    }
}

/// A page of a listing is the asked slice of its rows: with a limit of
/// zero or more and a skip inside the rows, it holds the rows from the
/// skip on, at most `limit` of them.
pub proof fn law_window_is_the_asked_slice<T>(s: Seq<T>, limit: int, offset: int)
    requires
        0 <= limit,
        0 <= offset <= s.len(),
    ensures
        window(s, limit, offset).len() == if offset + limit <= s.len() { limit } else { s.len() - offset },
        forall|k: int| 0 <= k < window(s, limit, offset).len() ==> #[trigger] window(s, limit, offset)[k] == s[offset + k],
{
}

/// Filtering keeps the order of what it keeps.
proof fn lemma_filter_keeps_order(s: Seq<Article>, p: spec_fn(Article) -> bool)
    requires
        super::order::in_order(s),
    ensures
        super::order::in_order(s.filter(p)),
    decreases s.len(),
{
    reveal_with_fuel(Seq::<_>::filter, 1);
    if s.len() > 0 {
        let s0 = s.drop_last();
        assert(super::order::in_order(s0)) by {
            assert forall|i: int, j: int| 0 <= i < j < s0.len() implies (#[trigger] s0[i]).before(#[trigger] s0[j]) by {
                assert(s[i].before(s[j]));
            }
        }
        lemma_filter_keeps_order(s0, p);
        let f0 = s0.filter(p);
        let f = s.filter(p);
        if p(s.last()) {
            assert forall|i: int, j: int| 0 <= i < j < f.len() implies (#[trigger] f[i]).before(#[trigger] f[j]) by {
                if j == f.len() - 1 {
                    assert(f[i] == f0[i]);
                    assert(f0.contains(f[i]));
                    s0.lemma_filter_contains_rev(p, f[i]);
                    let m = choose|m: int| 0 <= m < s0.len() && s0[m] == f[i];
                    assert(s[m].before(s[s.len() - 1]));
                } else {
                    assert(f[i] == f0[i] && f[j] == f0[j]);
                }
            }
        }
    }
}

/// A page of a listing shows the latest publication first: of two articles
/// on it, the earlier one was published no earlier than the later one, and
/// an unpublished article never comes before a published one.
pub proof fn law_listed_page_latest_first(v: StoreView, params: ArticleListParams, status: Option<ArticleStatus>)
    requires
        v.wf(),
    ensures
        forall|k: int, l: int| 0 <= k < l < listed_page(v, params, status).len() ==> match (
            (#[trigger] listed_page(v, params, status)[k]).published_at,
            (#[trigger] listed_page(v, params, status)[l]).published_at,
        ) {
            (Some(x), Some(y)) => x >= y,
            (None, Some(_)) => false,
            _ => true,
        },
{
    let pl = listed(v, status, super::articles::opt_view(params.category));
    let f = v.articles.filter(pl);
    lemma_counted_keys_distinct(v, pl);
    super::order::lemma_listing_exists(f);
    let lst = super::order::listing(f);
    let win = window(lst, page_limit(params) as int, super::articles::page_offset(params));
    assert(super::order::in_order(win)) by {
        let st = super::articles::window_start(lst.len() as int, super::articles::page_offset(params));
        assert forall|i: int, j: int| 0 <= i < j < win.len() implies (#[trigger] win[i]).before(#[trigger] win[j]) by {
            assert(win[i] == lst[st + i] && win[j] == lst[st + j]);
        }
    }
    let q = super::articles::tagged(v, super::articles::opt_view(params.tag));
    lemma_filter_keeps_order(win, q);
    let page = win.filter(q);
    assert forall|k: int, l: int| 0 <= k < l < page.len() implies match (
        (#[trigger] page[k]).published_at,
        (#[trigger] page[l]).published_at,
    ) {
        (Some(x), Some(y)) => x >= y,
        (None, Some(_)) => false,
        _ => true,
    } by {
        assert(page[k].before(page[l]));
    }
}


/// An article's tags are exactly the tags it is linked to.
pub proof fn law_article_tags_are_its_links(v: StoreView, aid: i64)
    ensures
        forall|t: super::super::common::Tag| #[trigger] tags_of(v, aid).contains(t) <==> (v.tags.contains(t)
            && v.links.contains((aid, t.id))),
{
    let p = super::linked_to(v.links, aid);
    assert forall|t: super::super::common::Tag| #[trigger] tags_of(v, aid).contains(t) <==> (v.tags.contains(t)
        && v.links.contains((aid, t.id))) by {
        if tags_of(v, aid).contains(t) {
            v.tags.lemma_filter_contains_rev(p, t);
            let k = choose|k: int| 0 <= k < tags_of(v, aid).len() && tags_of(v, aid)[k] == t;
            v.tags.lemma_filter_pred(p, k);
        }
        if v.tags.contains(t) && v.links.contains((aid, t.id)) {
            let k = choose|k: int| 0 <= k < v.tags.len() && v.tags[k] == t;
            v.tags.lemma_filter_contains(p, k);
        }
    }
}

/// An article's category is the category with its category id, when the
/// store has one.
pub proof fn law_article_category_is_its_id(v: StoreView, cid: i64)
    ensures
        category_of(v, Some(cid)) matches Some(cat) ==> cat.id == cid && v.categories.contains(cat),
        has_id(v.categories, cid) ==> category_of(v, Some(cid)) is Some,
        category_of(v, None) is None,
{
    lemma_first_match(v.categories, id_is::<Category>(cid));
    let i = index_of_id(v.categories, cid);
    if i >= 0 {
        assert(v.categories[i].row_id() == cid);
        assert(v.categories.contains(v.categories[i]));
    }
    if has_id(v.categories, cid) {
        let j = choose|j: int| 0 <= j < v.categories.len() && v.categories[j].row_id() == cid;
        assert(id_is::<Category>(cid)(v.categories[j]));
    }
}

} // verus!
