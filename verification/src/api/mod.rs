//! The site's requests: what each one reads or changes in the store, what
//! it answers, and what it asks of the cache. The public requests read; the
//! manage requests need the command-line token.
pub mod public;
pub mod manage;
pub mod laws;

use vstd::prelude::*;
use crate::cache::CacheOp;
use crate::error::AppError;

verus! {

/// A request's answer, and what it asks of the cache afterwards.
#[derive(Debug)]
pub struct Reply<T> {
    pub result: Result<T, AppError>,
    pub cache_ops: Vec<CacheOp>,
}

/// The cache is asked to forget exactly the entries under `keys`, in order.
pub open spec fn deletes(ops: Seq<CacheOp>, keys: Seq<Seq<char>>) -> bool {
    &&& ops.len() == keys.len()
    &&& forall|i: int| 0 <= i < ops.len() ==> (#[trigger] ops[i] matches CacheOp::Forget(k) && k@ == keys[i])
}

/// The cache is asked to keep the answer under `key` for `ttl` seconds.
pub open spec fn keeps(ops: Seq<CacheOp>, key: Seq<char>, ttl: u64) -> bool {
    ops.len() == 1 && (ops[0] matches CacheOp::Keep(k, t) && k@ == key && t == ttl)
}

/// The token check of the manage requests: the request's `x-cli-token`
/// header must be the configured token; otherwise it is refused with 401.
pub fn auth_middleware(token_header: Option<&str>, cli_token: &str) -> (r: Result<(), u16>)
    ensures
        r is Ok <==> (token_header matches Some(t) && t@ == cli_token@),
        r is Err ==> r == Err::<(), u16>(401),
{
    match token_header {
        Some(t) => if crate::text::str_eq(t, cli_token) {
            Ok(())
        } else {
            Err(401)
        },
        None => Err(401),
    }
}

pub(crate) fn one_set(key: String, ttl: u64) -> (r: Vec<CacheOp>)
    ensures
        keeps(r@, key@, ttl),
{
    let mut v = Vec::new();
    v.push(CacheOp::Keep(key, ttl));
    v
}

pub(crate) fn one_del(key: String) -> (r: Vec<CacheOp>)
    ensures
        deletes(r@, seq![key@]),
{
    let mut v = Vec::new();
    v.push(CacheOp::Forget(key));
    v
}

/// What a change of articles asks of the cache: forget every listing
/// (`articles:list*`), the entry of the changed article when there is one
/// (slug `slug`), and the homepage feed, in that order.
pub open spec fn article_change(ops: Seq<CacheOp>, slug: Option<Seq<char>>) -> bool {
    &&& ops[0] matches CacheOp::ForgetMatching(p) && p@ == crate::cache::keys::ARTICLES_LIST_PATTERN@
    &&& match slug {
        Some(s) => {
            &&& ops.len() == 3
            &&& ops[1] matches CacheOp::Forget(k) && k@ == crate::cache::keys::article_key(s)
            &&& ops[2] matches CacheOp::Forget(f) && f@ == crate::cache::keys::HOMEPAGE_FEED@
        },
        None => {
            &&& ops.len() == 2
            &&& ops[1] matches CacheOp::Forget(f) && f@ == crate::cache::keys::HOMEPAGE_FEED@
        },
    }
}

/// Forget every listing, the article with slug `slug` and the homepage feed.
pub(crate) fn article_dels(slug: &str) -> (r: Vec<CacheOp>)
    ensures
        article_change(r@, Some(slug@)),
{
    let mut v = Vec::new();
    v.push(CacheOp::ForgetMatching(String::from_str(crate::cache::keys::ARTICLES_LIST_PATTERN)));
    v.push(CacheOp::Forget(crate::cache::keys::article_slug(slug)));
    v.push(CacheOp::Forget(String::from_str(crate::cache::keys::HOMEPAGE_FEED)));
    v
}

/// Forget every listing and the homepage feed.
pub(crate) fn listing_dels() -> (r: Vec<CacheOp>)
    ensures
        article_change(r@, None),
{
    let mut v = Vec::new();
    v.push(CacheOp::ForgetMatching(String::from_str(crate::cache::keys::ARTICLES_LIST_PATTERN)));
    v.push(CacheOp::Forget(String::from_str(crate::cache::keys::HOMEPAGE_FEED)));
    v
}

/// Whether the cache is asked to forget the entry under `key`, by its key or
/// by a glob that matches it.
pub open spec fn forgets(ops: Seq<CacheOp>, key: Seq<char>) -> bool {
    exists|i: int|
        0 <= i < ops.len() && match #[trigger] ops[i] {
            CacheOp::Forget(k) => k@ == key,
            CacheOp::ForgetMatching(p) => crate::cache::keys::prefix_glob_matches(p@, key),
            CacheOp::Keep(_, _) => false,
        }
}

/// A changed article's cached answer is forgotten: the entry under which
/// reading an article by its slug keeps the answer is one that updating,
/// publishing, archiving or removing that article makes the cache forget.
pub proof fn law_changed_article_is_forgotten(slug: Seq<char>, read_ops: Seq<CacheOp>, change_ops: Seq<CacheOp>)
    requires
        keeps(read_ops, crate::cache::keys::article_key(slug), 3600),
        article_change(change_ops, Some(slug)),
    ensures
        read_ops[0] matches CacheOp::Keep(k, _) && forgets(change_ops, k@),
{
    assert(change_ops[1] matches CacheOp::Forget(k) && k@ == crate::cache::keys::article_key(slug));
}

/// Every cached listing is forgotten when articles change: the entry under
/// which a public listing keeps its answer, whatever its parameters, is
/// matched by the glob that writing, updating, publishing, archiving or
/// removing an article makes the cache forget.
pub proof fn law_changed_listing_is_forgotten(
    page: Option<i64>,
    limit: Option<i64>,
    tag: Option<Seq<char>>,
    category: Option<Seq<char>>,
    read_ops: Seq<CacheOp>,
    slug: Option<Seq<char>>,
    change_ops: Seq<CacheOp>,
)
    requires
        keeps(read_ops, crate::cache::keys::list_key(page, limit, tag, category), 300),
        article_change(change_ops, slug),
    ensures
        read_ops[0] matches CacheOp::Keep(k, _) && forgets(change_ops, k@),
{
    let key = crate::cache::keys::list_key(page, limit, tag, category);
    let head = "articles:list:ArticleListParams { page: "@;
    reveal_strlit("articles:list:ArticleListParams { page: ");
    reveal_strlit("articles:list*");
    let pat = crate::cache::keys::ARTICLES_LIST_PATTERN@;
    assert(key.take(13) =~= head.take(13));
    assert(head.take(13) =~= pat.drop_last());
    assert(crate::cache::keys::prefix_glob_matches(pat, key));
}

/// A changed page's cached answer is forgotten: the entry under which
/// reading a page by its slug keeps the answer is the one that updating,
/// publishing or removing that page makes the cache forget.
pub proof fn law_changed_page_is_forgotten(slug: Seq<char>, read_ops: Seq<CacheOp>, change_ops: Seq<CacheOp>)
    requires
        keeps(read_ops, crate::cache::keys::page_key(slug), 3600),
        deletes(change_ops, seq![crate::cache::keys::page_key(slug)]),
    ensures
        read_ops[0] matches CacheOp::Keep(k, _) && forgets(change_ops, k@),
{
    assert(change_ops[0] matches CacheOp::Forget(k) && k@ == crate::cache::keys::page_key(slug));
}

} // verus!
