use news_site::api::auth_middleware;
use news_site::api::manage::pages as manage;
use news_site::api::public::pages as public;
use news_site::common::{CreatePage, UpdatePage};
use news_site::db::Store;

const TEST_TOKEN: &str = "test-token";
const NOW: i64 = 1_780_000_000;

fn new_page(title: &str, slug: &str, body: &str) -> CreatePage {
    CreatePage { title: title.to_string(), slug: slug.to_string(), body: Some(body.to_string()) }
}

#[test]
fn get_page_not_found_public() {
    let store = Store::new();
    let res = public::get_page(&store, "nonexistent");
    assert_eq!(res.result.unwrap_err().status_code(), 404);
}

#[test]
fn get_draft_page_returns_404() {
    let mut store = Store::new();
    let _ = manage::create_page(&mut store, new_page("Draft Page", "draft-page", "Draft content"), NOW);
    let res = public::get_page(&store, "draft-page");
    assert_eq!(res.result.unwrap_err().status_code(), 404);
}

#[test]
fn create_page() {
    let mut store = Store::new();
    let body = manage::create_page(&mut store, new_page("About Us", "about-us", "This is the about page."), NOW).unwrap();
    assert_eq!(body.title, "About Us");
    assert_eq!(body.slug, "about-us");
    assert_eq!(body.body, "This is the about page.");
    assert!(body.id >= 1);
}

#[test]
fn create_page_conflict() {
    let mut store = Store::new();
    let _ = manage::create_page(&mut store, new_page("Page 1", "same-slug", "Content"), NOW);
    let res = manage::create_page(&mut store, new_page("Page 2", "same-slug", "Other"), NOW);
    assert_eq!(res.unwrap_err().status_code(), 409);
}

#[test]
fn create_page_unauthorized() {
    assert_eq!(auth_middleware(None, TEST_TOKEN), Err(401));
}

#[test]
fn get_page_by_id() {
    let mut store = Store::new();
    let id = manage::create_page(&mut store, new_page("Test Page", "test-page", "Body"), NOW).unwrap().id;
    let body = manage::get_page(&store, id).unwrap();
    assert_eq!(body.title, "Test Page");
    assert_eq!(body.body, "Body");
}

#[test]
fn get_page_by_id_not_found() {
    let store = Store::new();
    let res = manage::get_page(&store, 99999);
    assert_eq!(res.unwrap_err().status_code(), 404);
}

#[test]
fn update_page() {
    let mut store = Store::new();
    let id = manage::create_page(&mut store, new_page("Original", "original", "Original body"), NOW).unwrap().id;
    let input = UpdatePage { title: Some("Updated Title".to_string()), body: Some("Updated body".to_string()) };
    let body = manage::update_page(&mut store, id, input, NOW + 1).result.unwrap();
    assert_eq!(body.title, "Updated Title");
    assert_eq!(body.body, "Updated body");
}

#[test]
fn delete_page() {
    let mut store = Store::new();
    let id = manage::create_page(&mut store, new_page("To Delete", "to-delete", "Bye"), NOW).unwrap().id;
    let res = manage::delete_page(&mut store, id);
    assert!(res.result.is_ok());
    let get_res = manage::get_page(&store, id);
    assert_eq!(get_res.unwrap_err().status_code(), 404);
}

#[test]
fn publish_page() {
    let mut store = Store::new();
    let id = manage::create_page(&mut store, new_page("To Publish", "to-publish", "Content"), NOW).unwrap().id;
    let body = manage::publish_page(&mut store, id, NOW + 1).result.unwrap();
    assert_eq!(body.status.as_str(), "published");
}

#[test]
fn list_pages() {
    let mut store = Store::new();
    for i in 1..=3 {
        let _ = manage::create_page(
            &mut store,
            new_page(&format!("Page {}", i), &format!("page-{}", i), &format!("Body {}", i)),
            NOW + i,
        );
    }
    let body = manage::list_pages(&store).unwrap();
    assert!(body.len() >= 3);
    // latest created first
    assert_eq!(body[0].slug, "page-3");
}

#[test]
fn get_published_page_public() {
    let mut store = Store::new();
    let id = manage::create_page(&mut store, new_page("Published Page", "published-page", "Public content"), NOW)
        .unwrap()
        .id;
    let _ = manage::publish_page(&mut store, id, NOW + 1);
    let res = public::get_page(&store, "published-page");
    let body = res.result.unwrap();
    assert_eq!(body.title, "Published Page");
    assert_eq!(body.body, "Public content");
    assert_eq!(body.status.as_str(), "published");
}

#[test]
fn page_without_body_gets_an_empty_one() {
    let mut store = Store::new();
    let input = CreatePage { title: "Empty".to_string(), slug: "empty".to_string(), body: None };
    let p = manage::create_page(&mut store, input, NOW).unwrap();
    assert_eq!(p.body, "");
    assert_eq!(p.created_at, NOW);
}
