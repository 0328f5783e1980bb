use news_site::api::auth_middleware;
use news_site::api::manage::articles as manage;
use news_site::common::{ArticleListParams, ArticleStatus, CreateArticle, UpdateArticle};
use news_site::db::Store;
use news_site::error::AppError;

const TEST_TOKEN: &str = "test-token";
const NOW: i64 = 1_780_000_000;

fn new_article(title: &str, body: &str, author: &str) -> CreateArticle {
    CreateArticle {
        title: title.to_string(),
        excerpt: None,
        body: body.to_string(),
        author_name: author.to_string(),
        category_id: None,
        tag_ids: None,
    }
}

fn no_params() -> ArticleListParams {
    ArticleListParams { page: None, limit: None, tag: None, category: None }
}

#[test]
fn create_article() {
    let mut store = Store::new();
    assert_eq!(auth_middleware(Some(TEST_TOKEN), TEST_TOKEN), Ok(()));
    let res = manage::create_article(&mut store, new_article("Test Article", "Hello world", "Tester"), NOW);
    let body = res.result.unwrap();
    assert_eq!(body.title, "Test Article");
    assert_eq!(body.body, "Hello world");
    assert_eq!(body.author_name, "Tester");
    assert!(body.id >= 1);
}

#[test]
fn create_article_conflict_duplicate_slug() {
    let mut store = Store::new();
    let _ = manage::create_article(&mut store, new_article("Test Article", "Hello", "Tester"), NOW);
    let res = manage::create_article(&mut store, new_article("Test Article", "Different body", "Other"), NOW);
    match res.result {
        Err(e) => assert_eq!(e.status_code(), 409),
        Ok(_) => panic!("expected a conflict"),
    }
}

#[test]
fn create_article_unauthorized() {
    assert_eq!(auth_middleware(None, TEST_TOKEN), Err(401));
}

#[test]
fn get_article_by_id() {
    let mut store = Store::new();
    let created = manage::create_article(&mut store, new_article("Get Test", "Content", "Tester"), NOW);
    let id = created.result.unwrap().id;
    let body = manage::get_article(&store, id).unwrap();
    assert_eq!(body.article.title, "Get Test");
}

#[test]
fn articles_manage_get_article_not_found() {
    let store = Store::new();
    let res = manage::get_article(&store, 99999);
    assert_eq!(res.unwrap_err().status_code(), 404);
}

#[test]
fn update_article() {
    let mut store = Store::new();
    let created = manage::create_article(&mut store, new_article("Original Title", "Original body", "Tester"), NOW);
    let id = created.result.unwrap().id;
    let input = UpdateArticle {
        title: Some("Updated Title".to_string()),
        excerpt: None,
        body: Some("Updated body".to_string()),
        author_name: None,
        category_id: None,
        tag_ids: None,
    };
    let res = manage::update_article(&mut store, id, input, NOW + 1);
    let body = res.result.unwrap();
    assert_eq!(body.title, "Updated Title");
    assert_eq!(body.body, "Updated body");
    // author_name should remain unchanged
    assert_eq!(body.author_name, "Tester");
}

#[test]
fn update_article_not_found() {
    let mut store = Store::new();
    let input = UpdateArticle {
        title: Some("New".to_string()),
        excerpt: None,
        body: None,
        author_name: None,
        category_id: None,
        tag_ids: None,
    };
    let res = manage::update_article(&mut store, 99999, input, NOW);
    assert_eq!(res.result.unwrap_err().status_code(), 404);
}

#[test]
fn delete_article() {
    let mut store = Store::new();
    let created = manage::create_article(&mut store, new_article("To Delete", "Bye", "Tester"), NOW);
    let id = created.result.unwrap().id;
    let res = manage::delete_article(&mut store, id);
    assert!(res.result.is_ok());
    // Verify it's gone
    let get_res = manage::get_article(&store, id);
    assert_eq!(get_res.unwrap_err().status_code(), 404);
}

#[test]
fn delete_article_not_found() {
    let mut store = Store::new();
    let res = manage::delete_article(&mut store, 99999);
    assert_eq!(res.result.unwrap_err().status_code(), 404);
}

#[test]
fn publish_article() {
    let mut store = Store::new();
    let created = manage::create_article(&mut store, new_article("Draft to Publish", "Content", "Tester"), NOW);
    let id = created.result.unwrap().id;
    let res = manage::publish_article(&mut store, id, NOW + 5);
    let body = res.result.unwrap();
    assert_eq!(body.status.as_str(), "published");
    assert_eq!(body.status, ArticleStatus::Published);
}

#[test]
fn archive_article() {
    let mut store = Store::new();
    let created = manage::create_article(&mut store, new_article("To Archive", "Content", "Tester"), NOW);
    let id = created.result.unwrap().id;
    let res = manage::archive_article(&mut store, id, NOW + 5);
    let body = res.result.unwrap();
    assert_eq!(body.status.as_str(), "archived");
}

#[test]
fn list_articles_manage() {
    let mut store = Store::new();
    for i in 1..=3 {
        let _ = manage::create_article(
            &mut store,
            new_article(&format!("Article {}", i), &format!("Body {}", i), "Tester"),
            NOW + i,
        );
    }
    let body = manage::list_articles(&store, &no_params(), None).unwrap();
    assert_eq!(body.items.len(), 3);
    assert_eq!(body.total, 3);
}

#[test]
fn deleted_article_is_forgotten_by_the_cache() {
    let mut store = Store::new();
    let created = manage::create_article(&mut store, new_article("Cached", "Content", "Tester"), NOW);
    let id = created.result.unwrap().id;
    let res = manage::delete_article(&mut store, id);
    let keys: Vec<String> = res
        .cache_ops
        .iter()
        .map(|op| match op {
            news_site::cache::CacheOp::Forget(k) => k.clone(),
            news_site::cache::CacheOp::ForgetMatching(p) => format!("glob {}", p),
            _ => panic!("expected a forget"),
        })
        .collect();
    assert_eq!(keys, vec!["glob articles:list*", "articles:slug:cached", "feed:homepage"]);
}

#[test]
fn error_answers_hide_internal_detail() {
    let e = AppError::Internal("disk broke".to_string());
    let r = e.into_response();
    assert_eq!(r.status, 500);
    assert_eq!(r.message, "internal server error");
    let e = AppError::Conflict("slug 'x' already exists".to_string());
    let r = e.into_response();
    assert_eq!(r.status, 409);
    assert_eq!(r.message, "slug 'x' already exists");
    assert_eq!(AppError::BadRequest("no".to_string()).status_code(), 400);
}
