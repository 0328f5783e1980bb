use news_site::api::auth_middleware;
use news_site::api::manage::settings as manage;
use news_site::api::public::settings as public;
use news_site::db::Store;

const TEST_TOKEN: &str = "test-token";

#[test]
fn get_settings_public() {
    let store = Store::new();
    let body = public::get_settings(&store).unwrap();
    // Should have the default settings
    assert!(body.len() >= 3);
    let keys: Vec<&str> = body.iter().map(|s| s.key.as_str()).collect();
    assert!(keys.contains(&"site_name"));
    assert!(keys.contains(&"site_description"));
    assert!(keys.contains(&"site_url"));
}

#[test]
fn get_settings_manage() {
    let store = Store::new();
    assert_eq!(auth_middleware(Some(TEST_TOKEN), TEST_TOKEN), Ok(()));
    let body = manage::get_settings(&store).unwrap();
    assert!(body.len() >= 3);
}

#[test]
fn get_settings_manage_unauthorized() {
    assert_eq!(auth_middleware(None, TEST_TOKEN), Err(401));
}

#[test]
fn set_setting() {
    let mut store = Store::new();
    let body = manage::set_setting(&mut store, "site_name", "My News").unwrap();
    assert_eq!(body.key, "site_name");
    assert_eq!(body.value, "My News");
}

#[test]
fn set_setting_unauthorized() {
    assert_eq!(auth_middleware(None, TEST_TOKEN), Err(401));
    assert_eq!(auth_middleware(Some("wrong"), TEST_TOKEN), Err(401));
}

#[test]
fn set_setting_new_key() {
    let mut store = Store::new();
    let body = manage::set_setting(&mut store, "custom_key", "custom_value").unwrap();
    assert_eq!(body.key, "custom_key");
    assert_eq!(body.value, "custom_value");
}

#[test]
fn delete_setting() {
    let mut store = Store::new();
    let _ = manage::set_setting(&mut store, "to_delete", "temp");
    let res = manage::delete_setting(&mut store, "to_delete");
    assert!(res.is_ok());
}

#[test]
fn delete_setting_not_found() {
    let mut store = Store::new();
    let res = manage::delete_setting(&mut store, "nonexistent");
    assert_eq!(res.unwrap_err().status_code(), 404);
}

#[test]
fn flush_cache() {
    let res = manage::flush_cache();
    // the flush asks the cache to forget every family of keys
    assert!(res.result.is_ok());
    assert_eq!(res.cache_ops.len(), 5);
}

#[test]
fn settings_are_listed_by_key_and_overwritten_in_place() {
    let mut store = Store::new();
    let _ = manage::set_setting(&mut store, "site_name", "Daily");
    let _ = manage::set_setting(&mut store, "analytics", "on");
    let body = manage::get_settings(&store).unwrap();
    let pairs: Vec<(String, String)> = body.into_iter().map(|s| (s.key, s.value)).collect();
    assert_eq!(
        pairs,
        vec![
            ("analytics".to_string(), "on".to_string()),
            ("site_description".to_string(), "".to_string()),
            ("site_name".to_string(), "Daily".to_string()),
            ("site_url".to_string(), "http://localhost:3000".to_string()),
        ]
    );
    let _ = manage::delete_setting(&mut store, "analytics");
    assert_eq!(manage::delete_setting(&mut store, "analytics").unwrap_err().status_code(), 404);
}
