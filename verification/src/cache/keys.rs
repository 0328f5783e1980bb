//! The names under which answers are cached.
use vstd::prelude::*;
use crate::common::ArticleListParams;
use crate::text::{int_decimal, append_i64};

verus! {

pub const ARTICLES_LIST: &'static str = "articles:list";

/// The glob that matches the article list key and every listing's key.
pub const ARTICLES_LIST_PATTERN: &'static str = "articles:list*";

pub const TAGS_LIST: &'static str = "tags:list";

pub const CATEGORIES_LIST: &'static str = "categories:list";

pub const HOMEPAGE_FEED: &'static str = "feed:homepage";

/// Whether a glob made of a prefix and one final `*` matches `key`: the key
/// starts with the prefix.
pub open spec fn prefix_glob_matches(pattern: Seq<char>, key: Seq<char>) -> bool {
    &&& pattern.len() > 0
    &&& pattern.last() == '*'
    &&& key.len() >= pattern.len() - 1
    &&& key.take(pattern.len() - 1) == pattern.drop_last()
}

/// The cache key of the article with slug `slug`.
pub open spec fn article_key(slug: Seq<char>) -> Seq<char> {
    "articles:slug:"@ + slug
}

/// The cache key of the page with slug `slug`.
pub open spec fn page_key(slug: Seq<char>) -> Seq<char> {
    "pages:slug:"@ + slug
}

/// The cache key of the articles of the tag with slug `slug`.
pub open spec fn tag_articles_key(slug: Seq<char>) -> Seq<char> {
    "tags:"@ + slug + ":articles"@
}

/// The cache key of the articles of the category with slug `slug`.
pub open spec fn category_articles_key(slug: Seq<char>) -> Seq<char> {
    "categories:"@ + slug + ":articles"@
}

pub fn article_slug(slug: &str) -> (r: String)
    ensures
        r@ == article_key(slug@),
{
    let mut s = String::from_str("articles:slug:");
    s.append(slug);
    s
}

pub fn page_slug(slug: &str) -> (r: String)
    ensures
        r@ == page_key(slug@),
{
    let mut s = String::from_str("pages:slug:");
    s.append(slug);
    s
}

pub fn tag_articles(slug: &str) -> (r: String)
    ensures
        r@ == tag_articles_key(slug@),
{
    let mut s = String::from_str("tags:");
    s.append(slug);
    s.append(":articles");
    s
}

pub fn category_articles(slug: &str) -> (r: String)
    ensures
        r@ == category_articles_key(slug@),
{
    let mut s = String::from_str("categories:");
    s.append(slug);
    s.append(":articles");
    s
}

/// What `format!("{:?}", text)` gives for a text: the text quoted, with
/// the chars that need it escaped.
pub uninterp spec fn debug_text(text: Seq<char>) -> Seq<char>;

/// Calls `<str as Debug>::fmt` through `format!`. Its result is named
/// `debug_text`; how it escapes is left unsaid.
#[verifier::external_body]
fn debug_str(text: &str) -> (r: String)
    ensures
        r@ == debug_text(text@),
{
    format!("{:?}", text)
}

/// How `Debug` writes an optional number.
pub open spec fn debug_opt_int(o: Option<i64>) -> Seq<char> {
    match o {
        Some(n) => "Some("@ + int_decimal(n as int) + ")"@,
        None => "None"@,
    }
}

/// How `Debug` writes an optional text whose own `Debug` form is `shown`.
pub open spec fn debug_opt_shown(shown: Option<Seq<char>>) -> Seq<char> {
    match shown {
        Some(t) => "Some("@ + t + ")"@,
        None => "None"@,
    }
}

/// The `Debug` form of an optional text, when there is one.
pub open spec fn shown_text(o: Option<Seq<char>>) -> Option<Seq<char>> {
    match o {
        Some(t) => Some(debug_text(t)),
        None => None,
    }
}

/// The cache key of a listing whose tag and category have the `Debug` forms
/// `tag` and `category`: the list key, a colon, and the listing's parameters
/// as `Debug` writes them.
pub open spec fn list_key_shown(page: Option<i64>, limit: Option<i64>, tag: Option<Seq<char>>, category: Option<Seq<char>>) -> Seq<char> {
    "articles:list:ArticleListParams { page: "@ + debug_opt_int(page) + ", limit: "@ + debug_opt_int(limit)
        + ", tag: "@ + debug_opt_shown(tag) + ", category: "@ + debug_opt_shown(category) + " }"@
}

/// The cache key of a listing with these parameters.
pub open spec fn list_key(page: Option<i64>, limit: Option<i64>, tag: Option<Seq<char>>, category: Option<Seq<char>>) -> Seq<char> {
    list_key_shown(page, limit, shown_text(tag), shown_text(category))
}

fn append_debug_opt_int(s: &mut String, o: Option<i64>)
    ensures
        final(s)@ == old(s)@ + debug_opt_int(o),
{
    match o {
        Some(n) => {
            s.append("Some(");
            append_i64(s, n);
            s.append(")");
        },
        None => {
            s.append("None");
        },
    }
}

fn append_debug_opt_shown(s: &mut String, o: &Option<String>)
    ensures
        final(s)@ == old(s)@ + debug_opt_shown(match o { Some(t) => Some(t@), None => None }),
{
    match o {
        Some(t) => {
            s.append("Some(");
            s.append(t.as_str());
            s.append(")");
        },
        None => {
            s.append("None");
        },
    }
}

/// The cache key of a listing, given the `Debug` forms of its tag and
/// category.
pub fn listing_key(page: Option<i64>, limit: Option<i64>, tag: &Option<String>, category: &Option<String>) -> (r: String)
    ensures
        r@ == list_key_shown(
            page,
            limit,
            match tag { Some(t) => Some(t@), None => None },
            match category { Some(c) => Some(c@), None => None },
        ),
{
    let mut s = String::from_str("articles:list:ArticleListParams { page: ");
    append_debug_opt_int(&mut s, page);
    s.append(", limit: ");
    append_debug_opt_int(&mut s, limit);
    s.append(", tag: ");
    append_debug_opt_shown(&mut s, tag);
    s.append(", category: ");
    append_debug_opt_shown(&mut s, category);
    s.append(" }");
    proof {
        assert(s@ =~= list_key_shown(
            page,
            limit,
            match tag { Some(t) => Some(t@), None => None },
            match category { Some(c) => Some(c@), None => None },
        ));
    }
    s
}

fn show_opt(o: &Option<String>) -> (r: Option<String>)
    ensures
        match r { Some(t) => Some(t@), None => None } == shown_text(match o { Some(t) => Some(t@), None => None }),
{
    match o {
        Some(t) => Some(debug_str(t.as_str())),
        None => None,
    }
}

/// The cache key under which a public listing with `params` is kept
/// (`format!("{}:{:?}", ARTICLES_LIST, params)`).
pub fn list_cache_key(params: &ArticleListParams) -> (r: String)
    ensures
        r@ == list_key(
            params.page,
            params.limit,
            match params.tag { Some(t) => Some(t@), None => None },
            match params.category { Some(c) => Some(c@), None => None },
        ),
{
    let tag = show_opt(&params.tag);
    let category = show_opt(&params.category);
    listing_key(params.page, params.limit, &tag, &category)
}

/// Different slugs have different cache keys, and an article's key is never
/// a page's key.
pub proof fn law_cache_keys_distinct(a: Seq<char>, b: Seq<char>)
    ensures
        article_key(a) == article_key(b) ==> a == b,
        page_key(a) == page_key(b) ==> a == b,
        article_key(a) != page_key(b),
{
    reveal_strlit("articles:slug:");
    reveal_strlit("pages:slug:");
    if article_key(a) == article_key(b) {
        assert(a =~= article_key(a).skip(14));
        assert(b =~= article_key(b).skip(14));
    }
    if page_key(a) == page_key(b) {
        assert(a =~= page_key(a).skip(11));
        assert(b =~= page_key(b).skip(11));
    }
    assert(article_key(a)[0] != page_key(b)[0]);
}

} // verus!
