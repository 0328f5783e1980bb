use news_site::api::auth_middleware;
use news_site::api::manage::articles as manage_articles;
use news_site::api::manage::tags as manage;
use news_site::api::public::tags as public;
use news_site::common::{CreateArticle, CreateTag, UpdateArticle};
use news_site::db::Store;

const TEST_TOKEN: &str = "test-token";
const NOW: i64 = 1_780_000_000;

fn tag(name: &str) -> CreateTag {
    CreateTag { name: name.to_string() }
}

#[test]
fn list_tags_empty() {
    let store = Store::new();
    let body = public::list_tags(&store).unwrap();
    assert_eq!(body.len(), 0);
}

#[test]
fn create_tag() {
    let mut store = Store::new();
    let body = manage::create_tag(&mut store, tag("Technology")).unwrap();
    assert_eq!(body.name, "Technology");
    assert_eq!(body.slug, "technology");
    assert!(body.id >= 1);
}

#[test]
fn create_tag_unauthorized() {
    assert_eq!(auth_middleware(None, TEST_TOKEN), Err(401));
}

#[test]
fn list_tags() {
    let mut store = Store::new();
    for name in &["Tech", "Science", "World"] {
        let _ = manage::create_tag(&mut store, tag(name));
    }
    let body = public::list_tags(&store).unwrap();
    assert_eq!(body.len(), 3);
    assert_eq!(body[0].name, "Science");
}

#[test]
fn delete_tag() {
    let mut store = Store::new();
    let _ = manage::create_tag(&mut store, tag("To Delete"));
    let res = manage::delete_tag(&mut store, "to-delete");
    assert!(res.is_ok());
    // Verify list is empty
    let body = public::list_tags(&store).unwrap();
    assert_eq!(body.len(), 0);
}

#[test]
fn delete_tag_not_found() {
    let mut store = Store::new();
    let res = manage::delete_tag(&mut store, "nonexistent");
    assert_eq!(res.unwrap_err().status_code(), 404);
}

#[test]
fn articles_by_tag() {
    let mut store = Store::new();
    let tag_id = manage::create_tag(&mut store, tag("Rust")).unwrap().id;
    let input = CreateArticle {
        title: "Rust Article".to_string(),
        excerpt: None,
        body: "Rust content".to_string(),
        author_name: "Tester".to_string(),
        category_id: None,
        tag_ids: Some(vec![tag_id]),
    };
    let article_id = manage_articles::create_article(&mut store, input, NOW).result.unwrap().id;
    let _ = manage_articles::publish_article(&mut store, article_id, NOW + 1);
    let body = public::articles_by_tag(&store, "rust".to_string()).unwrap();
    assert_eq!(body.len(), 1);
    assert_eq!(body[0].article.title, "Rust Article");
}

#[test]
fn article_tags_are_replaced_and_removed_with_the_tag() {
    let mut store = Store::new();
    let a = manage::create_tag(&mut store, tag("Alpha")).unwrap().id;
    let b = manage::create_tag(&mut store, tag("Beta")).unwrap().id;
    let input = CreateArticle {
        title: "Tagged".to_string(),
        excerpt: None,
        body: "x".to_string(),
        author_name: "y".to_string(),
        category_id: None,
        tag_ids: Some(vec![b, a, b]),
    };
    let id = manage_articles::create_article(&mut store, input, NOW).result.unwrap().id;
    let full = manage_articles::get_article(&store, id).unwrap();
    let names: Vec<String> = full.tags.into_iter().map(|t| t.name).collect();
    assert_eq!(names, vec!["Alpha", "Beta"]);
    let upd = UpdateArticle {
        title: None,
        excerpt: None,
        body: None,
        author_name: None,
        category_id: None,
        tag_ids: Some(vec![b]),
    };
    let _ = manage_articles::update_article(&mut store, id, upd, NOW + 1);
    let full = manage_articles::get_article(&store, id).unwrap();
    assert_eq!(full.tags.len(), 1);
    let _ = manage::delete_tag(&mut store, "beta");
    let full = manage_articles::get_article(&store, id).unwrap();
    assert_eq!(full.tags.len(), 0);
}

#[test]
fn linking_a_missing_tag_fails_after_writing_the_article() {
    let mut store = Store::new();
    let input = CreateArticle {
        title: "Half".to_string(),
        excerpt: None,
        body: "x".to_string(),
        author_name: "y".to_string(),
        category_id: None,
        tag_ids: Some(vec![7]),
    };
    let res = manage_articles::create_article(&mut store, input, NOW);
    assert_eq!(res.result.unwrap_err().status_code(), 500);
    // the row was written before the link failed
    assert!(manage_articles::get_article(&store, 1).is_ok());
}

#[test]
fn duplicate_tag_name_is_an_internal_error() {
    let mut store = Store::new();
    let _ = manage::create_tag(&mut store, tag("Rust"));
    let res = manage::create_tag(&mut store, tag("RUST!"));
    assert_eq!(res.unwrap_err().status_code(), 500);
}
