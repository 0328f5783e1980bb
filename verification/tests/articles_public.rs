use news_site::api::manage::articles as manage;
use news_site::api::public::articles as public;
use news_site::common::{ArticleListParams, CreateArticle};
use news_site::db::Store;

const NOW: i64 = 1_780_000_000;

fn new_article(title: &str, body: &str, author: &str) -> CreateArticle {
    CreateArticle {
        title: title.to_string(),
        excerpt: None,
        body: body.to_string(),
        author_name: author.to_string(),
        category_id: None,
        tag_ids: None,
    }
}

#[test]
fn list_articles_empty() {
    let store = Store::new();
    let params = ArticleListParams { page: None, limit: None, tag: None, category: None };
    let body = public::list_articles(&store, &params).result.unwrap();
    assert_eq!(body.items.len(), 0);
    assert_eq!(body.total, 0);
    assert_eq!(body.page, 1);
    assert_eq!(body.limit, 20);
}

#[test]
fn list_articles_with_pagination() {
    let store = Store::new();
    let params = ArticleListParams { page: Some(2), limit: Some(5), tag: None, category: None };
    let body = public::list_articles(&store, &params).result.unwrap();
    assert_eq!(body.page, 2);
    assert_eq!(body.limit, 5);
}

#[test]
fn articles_public_get_article_not_found() {
    let store = Store::new();
    let res = public::get_article(&store, "nonexistent");
    assert_eq!(res.result.unwrap_err().status_code(), 404);
}

#[test]
fn get_draft_article_returns_404() {
    let mut store = Store::new();
    let created = manage::create_article(&mut store, new_article("Draft Article", "Draft content", "Tester"), NOW);
    assert!(created.result.is_ok());
    // Public endpoint should return 404 for draft
    let res = public::get_article(&store, "draft-article");
    assert_eq!(res.result.unwrap_err().status_code(), 404);
}

#[test]
fn get_published_article() {
    let mut store = Store::new();
    let created =
        manage::create_article(&mut store, new_article("Published Article", "Published content here", "Tester"), NOW);
    let article_id = created.result.unwrap().id;
    let _ = manage::publish_article(&mut store, article_id, NOW + 1);
    let res = public::get_article(&store, "published-article");
    let body = res.result.unwrap();
    assert_eq!(body.article.title, "Published Article");
    assert_eq!(body.article.body, "Published content here");
    assert_eq!(body.article.author_name, "Tester");
    assert_eq!(body.article.status.as_str(), "published");
}

#[test]
fn public_listing_pages_and_orders_published_articles() {
    let mut store = Store::new();
    for i in 1..=25 {
        let c = manage::create_article(&mut store, new_article(&format!("Story {}", i), "b", "a"), NOW + i);
        let id = c.result.unwrap().id;
        let _ = manage::publish_article(&mut store, id, NOW + 100 + i);
    }
    let _ = manage::create_article(&mut store, new_article("Unpublished", "b", "a"), NOW);
    let first = ArticleListParams { page: None, limit: None, tag: None, category: None };
    let body = public::list_articles(&store, &first).result.unwrap();
    assert_eq!(body.total, 25);
    assert_eq!(body.items.len(), 20);
    // latest publication first
    assert_eq!(body.items[0].article.title, "Story 25");
    assert_eq!(body.items[19].article.title, "Story 6");
    let second = ArticleListParams { page: Some(2), limit: None, tag: None, category: None };
    let body = public::list_articles(&store, &second).result.unwrap();
    assert_eq!(body.items.len(), 5);
    assert_eq!(body.items[4].article.title, "Story 1");
    // a limit above 100 is brought down to 100; page 0 is page 1
    let big = ArticleListParams { page: Some(0), limit: Some(500), tag: None, category: None };
    let res = public::list_articles(&store, &big);
    let body = res.result.unwrap();
    assert_eq!(body.items.len(), 25);
    assert_eq!(body.limit, 500);
    // a negative limit means no limit
    let all = ArticleListParams { page: None, limit: Some(-1), tag: None, category: None };
    assert_eq!(public::list_articles(&store, &all).result.unwrap().items.len(), 25);
}

#[test]
fn public_listing_is_cached_under_its_parameters() {
    let store = Store::new();
    let params = ArticleListParams { page: Some(2), limit: None, tag: Some("rust".to_string()), category: None };
    let res = public::list_articles(&store, &params);
    match &res.cache_ops[0] {
        news_site::cache::CacheOp::Keep(k, ttl) => {
            assert_eq!(
                k,
                "articles:list:ArticleListParams { page: Some(2), limit: None, tag: Some(\"rust\"), category: None }"
            );
            assert_eq!(*ttl, 300);
        },
        _ => panic!("expected the listing to be kept"),
    }
}
