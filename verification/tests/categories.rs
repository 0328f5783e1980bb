use news_site::api::auth_middleware;
use news_site::api::manage::articles as manage_articles;
use news_site::api::manage::categories as manage;
use news_site::api::public::categories as public;
use news_site::common::{CreateArticle, CreateCategory, UpdateCategory};
use news_site::db::Store;

const TEST_TOKEN: &str = "test-token";

fn named(name: &str) -> CreateCategory {
    CreateCategory { name: name.to_string(), slug: None, description: None }
}

#[test]
fn list_categories_empty() {
    let store = Store::new();
    let body = public::list_categories(&store).unwrap();
    assert_eq!(body.len(), 0);
}

#[test]
fn create_category() {
    let mut store = Store::new();
    let input = CreateCategory {
        name: "Politics".to_string(),
        slug: None,
        description: Some("Political news".to_string()),
    };
    let body = manage::create_category(&mut store, input).result.unwrap();
    assert_eq!(body.name, "Politics");
    assert_eq!(body.slug, "politics");
    assert_eq!(body.description, "Political news");
    assert!(body.id >= 1);
}

#[test]
fn create_category_with_custom_slug() {
    let mut store = Store::new();
    let input = CreateCategory {
        name: "Tech News".to_string(),
        slug: Some("tech-news".to_string()),
        description: Some("Technology".to_string()),
    };
    let body = manage::create_category(&mut store, input).result.unwrap();
    assert_eq!(body.slug, "tech-news");
}

#[test]
fn create_category_unauthorized() {
    assert_eq!(auth_middleware(None, TEST_TOKEN), Err(401));
}

#[test]
fn list_categories() {
    let mut store = Store::new();
    for name in &["Politics", "Tech", "World"] {
        let _ = manage::create_category(&mut store, named(name));
    }
    let body = public::list_categories(&store).unwrap();
    assert_eq!(body.len(), 3);
}

#[test]
fn get_category_by_slug() {
    let mut store = Store::new();
    let _ = manage::create_category(&mut store, named("Science"));
    let body = manage::get_category(&store, "science").unwrap();
    assert_eq!(body.name, "Science");
}

#[test]
fn get_category_not_found() {
    let store = Store::new();
    let res = manage::get_category(&store, "nonexistent");
    assert_eq!(res.unwrap_err().status_code(), 404);
}

#[test]
fn update_category() {
    let mut store = Store::new();
    let _ = manage::create_category(&mut store, named("Original"));
    let input = UpdateCategory { name: Some("Updated".to_string()), description: Some("New desc".to_string()) };
    let body = manage::update_category(&mut store, "original", input).result.unwrap();
    assert_eq!(body.name, "Updated");
    assert_eq!(body.description, "New desc");
}

#[test]
fn delete_category() {
    let mut store = Store::new();
    let _ = manage::create_category(&mut store, named("To Delete"));
    let res = manage::delete_category(&mut store, "to-delete");
    assert!(res.result.is_ok());
    let get_res = manage::get_category(&store, "to-delete");
    assert_eq!(get_res.unwrap_err().status_code(), 404);
}

#[test]
fn delete_category_not_found() {
    let mut store = Store::new();
    let res = manage::delete_category(&mut store, "nonexistent");
    assert_eq!(res.result.unwrap_err().status_code(), 404);
}

#[test]
fn categories_are_listed_by_name() {
    let mut store = Store::new();
    for name in &["World", "Art", "Tech", "Business"] {
        let _ = manage::create_category(&mut store, named(name));
    }
    let names: Vec<String> = public::list_categories(&store).unwrap().into_iter().map(|c| c.name).collect();
    assert_eq!(names, vec!["Art", "Business", "Tech", "World"]);
}

#[test]
fn duplicate_category_slug_is_an_internal_error() {
    let mut store = Store::new();
    let _ = manage::create_category(&mut store, named("Science"));
    let res = manage::create_category(&mut store, named("science"));
    assert_eq!(res.result.unwrap_err().status_code(), 500);
}

#[test]
fn deleted_category_leaves_its_articles_uncategorized() {
    let mut store = Store::new();
    let cat = manage::create_category(&mut store, named("Sport")).result.unwrap();
    let input = CreateArticle {
        title: "Match report".to_string(),
        excerpt: None,
        body: "b".to_string(),
        author_name: "a".to_string(),
        category_id: Some(cat.id),
        tag_ids: None,
    };
    let a = manage_articles::create_article(&mut store, input, 1).result.unwrap();
    assert_eq!(a.category_id, Some(cat.id));
    let full = manage_articles::get_article(&store, a.id).unwrap();
    assert_eq!(full.category.unwrap().slug, "sport");
    let _ = manage::delete_category(&mut store, "sport");
    let full = manage_articles::get_article(&store, a.id).unwrap();
    assert_eq!(full.article.category_id, None);
    assert!(full.category.is_none());
}

#[test]
fn article_in_missing_category_is_refused() {
    let mut store = Store::new();
    let input = CreateArticle {
        title: "Lost".to_string(),
        excerpt: None,
        body: "b".to_string(),
        author_name: "a".to_string(),
        category_id: Some(42),
        tag_ids: None,
    };
    let res = manage_articles::create_article(&mut store, input, 1);
    assert_eq!(res.result.unwrap_err().status_code(), 500);
    assert!(manage_articles::get_article(&store, 1).is_err());
}
