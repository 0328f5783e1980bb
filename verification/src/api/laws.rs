//! The cache across requests: the cache is modelled by the set of keys that
//! hold an entry, each request by what it does to the store and what it asks
//! of the cache. Whatever requests run, one at a time, with every cache
//! operation carried out, an article's entry stays only while the store
//! holds a published article with that slug, so a public read never answers
//! a draft, an archived or a removed article from the cache.
use vstd::prelude::*;
use crate::api::{article_change, forgets, keeps};
use crate::cache::CacheOp;
use crate::cache::keys::{article_key, page_key, list_key, prefix_glob_matches, law_cache_keys_distinct};
use crate::common::{Article, ArticleStatus, CreateArticle, UpdateArticle};
use crate::db::StoreView;
use crate::db::articles::{article_created, article_updated, article_published, article_archived, article_deleted};
use crate::db::categories::category_deleted;
use crate::db::table::{row_with_slug, row_with_id, index_of_slug, index_of_id, slug_is, id_is, lemma_first_match};

verus! {

/// The store holds a published article with slug `s`.
pub open spec fn published_slug(v: StoreView, s: Seq<char>) -> bool {
    exists|j: int| 0 <= j < v.articles.len() && (#[trigger] v.articles[j]).slug@ == s && v.articles[j].status
        == ArticleStatus::Published
}

/// Every article entry in the cache (`keys`) belongs to a published article.
pub open spec fn cache_sound(v: StoreView, keys: Set<Seq<char>>) -> bool {
    forall|s: Seq<char>| #[trigger] keys.contains(article_key(s)) ==> published_slug(v, s)
}

/// The keys that hold an entry after one cache operation.
pub open spec fn cached_after_op(keys: Set<Seq<char>>, op: CacheOp) -> Set<Seq<char>> {
    match op {
        CacheOp::Forget(k) => keys.remove(k@),
        CacheOp::Keep(k, _) => keys.insert(k@),
        CacheOp::ForgetMatching(p) => keys.filter(|x: Seq<char>| !prefix_glob_matches(p@, x)),
    }
}

/// The keys that hold an entry after the cache operations, in order. A
/// glob that is not a prefix and a `*` is taken to forget nothing, which
/// keeps more entries than the cache does.
pub open spec fn cached_after(keys: Set<Seq<char>>, ops: Seq<CacheOp>) -> Set<Seq<char>>
    decreases ops.len(),
{
    if ops.len() == 0 {
        keys
    } else {
        cached_after(cached_after_op(keys, ops[0]), ops.drop_first())
    }
}

/// The cache is asked to keep an entry under `key`.
pub open spec fn kept_in(ops: Seq<CacheOp>, key: Seq<char>) -> bool {
    exists|i: int| 0 <= i < ops.len() && (#[trigger] ops[i] matches CacheOp::Keep(k, _) && k@ == key)
}

/// A published article stays published unless its entry is forgotten.
pub open spec fn published_kept(v: StoreView, w: StoreView, ops: Seq<CacheOp>) -> bool {
    forall|s: Seq<char>| #[trigger] published_slug(v, s) && !forgets(ops, article_key(s)) ==> published_slug(w, s)
}

/// Every article entry that the cache is asked to keep belongs to a
/// published article.
pub open spec fn keeps_sound(w: StoreView, ops: Seq<CacheOp>) -> bool {
    forall|s: Seq<char>| #[trigger] kept_in(ops, article_key(s)) ==> published_slug(w, s)
}

proof fn lemma_cached_after(keys: Set<Seq<char>>, ops: Seq<CacheOp>, x: Seq<char>)
    requires
        cached_after(keys, ops).contains(x),
    ensures
        (keys.contains(x) && !forgets(ops, x)) || kept_in(ops, x),
    decreases ops.len(),
{
    if ops.len() > 0 {
        let k1 = cached_after_op(keys, ops[0]);
        let rest = ops.drop_first();
        lemma_cached_after(k1, rest, x);
        if kept_in(rest, x) {
            let i = choose|i: int| 0 <= i < rest.len() && (#[trigger] rest[i] matches CacheOp::Keep(k, _) && k@ == x);
            assert(ops[i + 1] == rest[i]);
        } else if ops[0] matches CacheOp::Keep(k, _) && k@ == x {
            assert(kept_in(ops, x));
        } else {
            assert(keys.contains(x));
            if forgets(ops, x) {
                let i = choose|i: int|
                    0 <= i < ops.len() && match #[trigger] ops[i] {
                        CacheOp::Forget(k) => k@ == x,
                        CacheOp::ForgetMatching(p) => prefix_glob_matches(p@, x),
                        CacheOp::Keep(_, _) => false,
                    };
                if i > 0 {
                    assert(rest[i - 1] == ops[i]);
                    assert(forgets(rest, x));
                }
            }
        }
    }
}

/// The cache stays sound across a request that keeps every published
/// article published unless it forgets its entry, and that keeps only
/// entries of published articles.
pub proof fn law_cache_stays_sound(v: StoreView, w: StoreView, keys: Set<Seq<char>>, ops: Seq<CacheOp>)
    requires
        cache_sound(v, keys),
        published_kept(v, w, ops),
        keeps_sound(w, ops),
    ensures
        cache_sound(w, cached_after(keys, ops)),
{
    assert forall|s: Seq<char>| #[trigger] cached_after(keys, ops).contains(article_key(s)) implies published_slug(w, s) by {
        lemma_cached_after(keys, ops, article_key(s));
        if !kept_in(ops, article_key(s)) {
            assert(keys.contains(article_key(s)));
            assert(published_slug(v, s));
        }
    }
}

proof fn lemma_no_keeps(ops: Seq<CacheOp>, w: StoreView)
    requires
        forall|i: int| 0 <= i < ops.len() ==> !(#[trigger] ops[i] is Keep),
    ensures
        keeps_sound(w, ops),
{
    assert forall|s: Seq<char>| #[trigger] kept_in(ops, article_key(s)) implies published_slug(w, s) by {
        let i = choose|i: int| 0 <= i < ops.len() && (#[trigger] ops[i] matches CacheOp::Keep(k, _) && k@ == article_key(s));
    }
}

proof fn lemma_change_no_keeps(ops: Seq<CacheOp>, slug: Option<Seq<char>>, w: StoreView)
    requires
        article_change(ops, slug),
    ensures
        keeps_sound(w, ops),
{
    lemma_no_keeps(ops, w);
}

/// A request that leaves every article as it was, and keeps no entry (the
/// page, tag, category and setting requests, and the flushes), keeps the
/// cache sound.
pub proof fn law_other_request_keeps_cache_sound(v: StoreView, w: StoreView, keys: Set<Seq<char>>, ops: Seq<CacheOp>)
    requires
        cache_sound(v, keys),
        w.articles == v.articles,
        forall|i: int| 0 <= i < ops.len() ==> !(#[trigger] ops[i] is Keep),
    ensures
        cache_sound(w, cached_after(keys, ops)),
{
    lemma_no_keeps(ops, w);
    law_cache_stays_sound(v, w, keys, ops);
}

/// Reading an article by its slug keeps the cache sound: it keeps an entry
/// only for a published article.
pub proof fn law_article_read_keeps_cache_sound(v: StoreView, slug: Seq<char>, keys: Set<Seq<char>>, ops: Seq<CacheOp>)
    requires
        cache_sound(v, keys),
        match row_with_slug(v.articles, slug) {
            Some(a) if a.status == ArticleStatus::Published => keeps(ops, article_key(slug), 3600),
            _ => ops.len() == 0,
        },
    ensures
        cache_sound(v, cached_after(keys, ops)),
{
    assert forall|s: Seq<char>| #[trigger] kept_in(ops, article_key(s)) implies published_slug(v, s) by {
        let i = choose|i: int| 0 <= i < ops.len() && (#[trigger] ops[i] matches CacheOp::Keep(k, _) && k@ == article_key(s));
        law_cache_keys_distinct(s, slug);
        lemma_first_match(v.articles, slug_is::<Article>(slug));
        let j = index_of_slug(v.articles, slug);
        assert(v.articles[j].slug@ == s);
    }
    law_cache_stays_sound(v, v, keys, ops);
}

/// Reading a listing or a page keeps the cache sound: the entries it keeps
/// are never article entries.
pub proof fn law_listing_or_page_read_keeps_cache_sound(
    v: StoreView,
    keys: Set<Seq<char>>,
    ops: Seq<CacheOp>,
    key: Seq<char>,
    ttl: u64,
)
    requires
        cache_sound(v, keys),
        ops.len() == 0 || keeps(ops, key, ttl),
        (exists|p: Option<i64>, l: Option<i64>, t: Option<Seq<char>>, c: Option<Seq<char>>| key == list_key(p, l, t, c))
            || (exists|s: Seq<char>| key == page_key(s)),
    ensures
        cache_sound(v, cached_after(keys, ops)),
{
    assert forall|s: Seq<char>| #[trigger] kept_in(ops, article_key(s)) implies published_slug(v, s) by {
        let i = choose|i: int| 0 <= i < ops.len() && (#[trigger] ops[i] matches CacheOp::Keep(k, _) && k@ == article_key(s));
        reveal_strlit("articles:slug:");
        reveal_strlit("articles:list:ArticleListParams { page: ");
        if exists|s2: Seq<char>| key == page_key(s2) {
            let s2 = choose|s2: Seq<char>| key == page_key(s2);
            law_cache_keys_distinct(s, s2);
        } else {
            let (p, l, t, c) = choose|p: Option<i64>, l: Option<i64>, t: Option<Seq<char>>, c: Option<Seq<char>>|
                key == list_key(p, l, t, c);
            assert(article_key(s)[9] != list_key(p, l, t, c)[9]);
        }
    }
    law_cache_stays_sound(v, v, keys, ops);
}

/// Writing an article keeps the cache sound: a new article is a draft, and
/// no article changes.
pub proof fn law_article_creation_keeps_cache_sound(
    v: StoreView,
    input: CreateArticle,
    now: i64,
    w: StoreView,
    r: Result<Article, crate::error::AppError>,
    keys: Set<Seq<char>>,
    ops: Seq<CacheOp>,
)
    requires
        cache_sound(v, keys),
        article_created(v, input, now, w, r),
        r is Ok ==> article_change(ops, None),
        r is Err ==> ops.len() == 0,
    ensures
        cache_sound(w, cached_after(keys, ops)),
{
    assert forall|s: Seq<char>| #[trigger] published_slug(v, s) && !forgets(ops, article_key(s)) implies published_slug(w, s) by {
        let j = choose|j: int| 0 <= j < v.articles.len() && (#[trigger] v.articles[j]).slug@ == s
            && v.articles[j].status == ArticleStatus::Published;
        assert(w.articles[j] == v.articles[j]);
    }
    lemma_no_keeps(ops, w);
    law_cache_stays_sound(v, w, keys, ops);
}

/// Changing an article keeps the cache sound: its slug and status stay.
pub proof fn law_article_update_keeps_cache_sound(
    v: StoreView,
    id: i64,
    input: UpdateArticle,
    now: i64,
    w: StoreView,
    r: Result<Article, crate::error::AppError>,
    keys: Set<Seq<char>>,
    ops: Seq<CacheOp>,
)
    requires
        cache_sound(v, keys),
        article_updated(v, id, input, now, w, r),
        r matches Ok(a) ==> article_change(ops, Some(a.slug@)),
        r is Err ==> ops.len() == 0,
    ensures
        cache_sound(w, cached_after(keys, ops)),
{
    let i = index_of_id(v.articles, id);
    lemma_first_match(v.articles, id_is::<Article>(id));
    assert forall|s: Seq<char>| #[trigger] published_slug(v, s) && !forgets(ops, article_key(s)) implies published_slug(w, s) by {
        let j = choose|j: int| 0 <= j < v.articles.len() && (#[trigger] v.articles[j]).slug@ == s
            && v.articles[j].status == ArticleStatus::Published;
        if i >= 0 && !crate::db::articles::names_missing_category(v, input.category_id) {
            assert(w.articles.len() == v.articles.len());
            if j == i {
                assert(w.articles[j].slug == v.articles[j].slug && w.articles[j].status == v.articles[j].status);
            } else {
                assert(w.articles[j] == v.articles[j]);
            }
        }
    }
    lemma_no_keeps(ops, w);
    law_cache_stays_sound(v, w, keys, ops);
}

/// Publishing an article keeps the cache sound.
pub proof fn law_article_publication_keeps_cache_sound(
    v: StoreView,
    id: i64,
    now: i64,
    w: StoreView,
    r: Result<Article, crate::error::AppError>,
    keys: Set<Seq<char>>,
    ops: Seq<CacheOp>,
)
    requires
        cache_sound(v, keys),
        article_published(v, id, now, w, r),
        r matches Ok(a) ==> article_change(ops, Some(a.slug@)),
        r is Err ==> ops.len() == 0,
    ensures
        cache_sound(w, cached_after(keys, ops)),
{
    let i = index_of_id(v.articles, id);
    lemma_first_match(v.articles, id_is::<Article>(id));
    assert forall|s: Seq<char>| #[trigger] published_slug(v, s) && !forgets(ops, article_key(s)) implies published_slug(w, s) by {
        let j = choose|j: int| 0 <= j < v.articles.len() && (#[trigger] v.articles[j]).slug@ == s
            && v.articles[j].status == ArticleStatus::Published;
        if i >= 0 {
            assert(w.articles.len() == v.articles.len());
            if j == i {
                assert(w.articles[j].slug == v.articles[j].slug && w.articles[j].status == ArticleStatus::Published);
            } else {
                assert(w.articles[j] == v.articles[j]);
            }
        }
    }
    lemma_no_keeps(ops, w);
    law_cache_stays_sound(v, w, keys, ops);
}

/// Archiving an article keeps the cache sound: its entry is forgotten.
pub proof fn law_article_archiving_keeps_cache_sound(
    v: StoreView,
    id: i64,
    now: i64,
    w: StoreView,
    r: Result<Article, crate::error::AppError>,
    keys: Set<Seq<char>>,
    ops: Seq<CacheOp>,
)
    requires
        cache_sound(v, keys),
        article_archived(v, id, now, w, r),
        r matches Ok(a) ==> article_change(ops, Some(a.slug@)),
        r is Err ==> ops.len() == 0,
    ensures
        cache_sound(w, cached_after(keys, ops)),
{
    lemma_first_match(v.articles, id_is::<Article>(id));
    let i = index_of_id(v.articles, id);
    assert forall|s: Seq<char>| #[trigger] published_slug(v, s) && !forgets(ops, article_key(s)) implies published_slug(w, s) by {
        let j = choose|j: int| 0 <= j < v.articles.len() && (#[trigger] v.articles[j]).slug@ == s
            && v.articles[j].status == ArticleStatus::Published;
        if i >= 0 && j == i {
            assert(ops[1] matches CacheOp::Forget(k) && k@ == article_key(s));
            assert(forgets(ops, article_key(s)));
        } else {
            assert(w.articles[j] == v.articles[j]);
        }
    }
    lemma_no_keeps(ops, w);
    law_cache_stays_sound(v, w, keys, ops);
}

/// Removing an article keeps the cache sound: its entry is forgotten.
pub proof fn law_article_removal_keeps_cache_sound(
    v: StoreView,
    id: i64,
    w: StoreView,
    r: Result<(), crate::error::AppError>,
    keys: Set<Seq<char>>,
    ops: Seq<CacheOp>,
)
    requires
        cache_sound(v, keys),
        article_deleted(v, id, w, r),
        match row_with_id(v.articles, id) {
            Some(a) => article_change(ops, Some(a.slug@)),
            None => ops.len() == 0,
        },
    ensures
        cache_sound(w, cached_after(keys, ops)),
{
    let i = index_of_id(v.articles, id);
    lemma_first_match(v.articles, id_is::<Article>(id));
    assert forall|s: Seq<char>| #[trigger] published_slug(v, s) && !forgets(ops, article_key(s)) implies published_slug(w, s) by {
        let j = choose|j: int| 0 <= j < v.articles.len() && (#[trigger] v.articles[j]).slug@ == s
            && v.articles[j].status == ArticleStatus::Published;
        if i < 0 {
            assert(w.articles[j] == v.articles[j]);
        } else if j == i {
            assert(ops[1] matches CacheOp::Forget(k) && k@ == article_key(s));
            assert(forgets(ops, article_key(s)));
        } else if j < i {
            assert(w.articles[j] == v.articles[j]);
        } else {
            assert(w.articles[j - 1] == v.articles[j]);
        }
    }
    lemma_no_keeps(ops, w);
    law_cache_stays_sound(v, w, keys, ops);
}

/// Removing a category keeps the cache sound: its articles lose only their
/// category.
pub proof fn law_category_removal_keeps_cache_sound(
    v: StoreView,
    slug: Seq<char>,
    w: StoreView,
    r: Result<(), crate::error::AppError>,
    keys: Set<Seq<char>>,
    ops: Seq<CacheOp>,
)
    requires
        cache_sound(v, keys),
        category_deleted(v, slug, w, r),
        forall|i: int| 0 <= i < ops.len() ==> !(#[trigger] ops[i] is Keep),
    ensures
        cache_sound(w, cached_after(keys, ops)),
{
    assert forall|s: Seq<char>| #[trigger] published_slug(v, s) && !forgets(ops, article_key(s)) implies published_slug(w, s) by {
        let j = choose|j: int| 0 <= j < v.articles.len() && (#[trigger] v.articles[j]).slug@ == s
            && v.articles[j].status == ArticleStatus::Published;
        assert(w.articles[j].slug == v.articles[j].slug && w.articles[j].status == v.articles[j].status);
    }
    lemma_no_keeps(ops, w);
    law_cache_stays_sound(v, w, keys, ops);
}

} // verus!
