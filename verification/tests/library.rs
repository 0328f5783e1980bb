use news_site::cache::keys;
use news_site::cli::commands::article::ArticleCmd;
use news_site::cli::commands::cache::CacheCmd;
use news_site::cli::commands::category::CategoryCmd;
use news_site::cli::commands::page::PageCmd;
use news_site::cli::commands::settings::SettingsCmd;
use news_site::cli::commands::tag::TagCmd;
use news_site::cli::{config_path, trim_end_slashes, ApiCall, Config as CliConfig, JsonValue, Method};
use news_site::common::{ArticleListParams, CreateArticle, UpdateArticle};
use news_site::config::{parse_port, Config, ConfigError, PortError};
use news_site::db::db::articles as repo;
use news_site::db::articles;
use news_site::db::Store;
use news_site::cache::CacheOp;
use news_site::api::manage::articles as manage_articles;
use news_site::api::public::articles as public_articles;
use news_site::api::manage::categories as manage_categories;
use news_site::db::snapshot::Tables;
use news_site::common::{Category, Setting, Tag};
use news_site::common::{ArticleStatus, PageStatus};
use news_site::slugs::slugify;
use news_site::text::i64_to_string;

fn body_of(call: &ApiCall) -> Vec<(String, String)> {
    call.body
        .as_ref()
        .unwrap()
        .iter()
        .map(|(k, v)| {
            let s = match v {
                JsonValue::Null => "null".to_string(),
                JsonValue::Text(t) => format!("\"{}\"", t),
                JsonValue::Int(n) => n.to_string(),
            };
            (k.clone(), s)
        })
        .collect()
}

#[test]
fn cache_keys() {
    assert_eq!(keys::article_slug("hello-world"), "articles:slug:hello-world");
    assert_eq!(keys::page_slug("about"), "pages:slug:about");
    assert_eq!(keys::tag_articles("rust"), "tags:rust:articles");
    assert_eq!(keys::category_articles("tech"), "categories:tech:articles");
    assert_eq!(keys::ARTICLES_LIST, "articles:list");
    assert_ne!(keys::article_slug("a"), keys::page_slug("a"));
    let p = ArticleListParams { page: None, limit: Some(-3), tag: None, category: Some("a\"b".to_string()) };
    assert_eq!(
        keys::list_cache_key(&p),
        "articles:list:ArticleListParams { page: None, limit: Some(-3), tag: None, category: Some(\"a\\\"b\") }"
    );
}

#[test]
fn listing_keys_from_shown_parameters() {
    assert_eq!(
        keys::listing_key(Some(2), None, &Some("\"rust\"".to_string()), &None),
        "articles:list:ArticleListParams { page: Some(2), limit: None, tag: Some(\"rust\"), category: None }"
    );
    // every listing's key starts with the list key, so the glob forgets it
    let p = ArticleListParams { page: None, limit: None, tag: None, category: None };
    assert!(keys::list_cache_key(&p).starts_with(keys::ARTICLES_LIST_PATTERN.trim_end_matches('*')));
}

#[test]
fn slugs_follow_the_slug_crate() {
    assert_eq!(slugify("Hello World"), "hello-world");
    assert_eq!(slugify("  --test_-_cool"), "test-cool");
    assert_eq!(slugify("You & Me"), "you-me");
    assert_eq!(slugify("Æúű--cool?"), "aeuu-cool");
    assert_eq!(slugify("!!!"), "");
}

#[test]
fn decimal_numbers() {
    assert_eq!(i64_to_string(0), "0");
    assert_eq!(i64_to_string(99999), "99999");
    assert_eq!(i64_to_string(-42), "-42");
    assert_eq!(i64_to_string(i64::MIN), "-9223372036854775808");
    assert_eq!(i64_to_string(i64::MAX), "9223372036854775807");
}

#[test]
fn server_config() {
    let c = Config::from_vars(None, None, Some("tok".to_string()), None, None).unwrap();
    assert_eq!(c.database_url, "sqlite:///data/news.db");
    assert_eq!(c.valkey_url, "redis://valkey:6379");
    assert_eq!(c.port, 3000);
    assert_eq!(c.cli_token, "tok");
    assert!(c.static_dir.is_none());
    let c = Config::from_vars(
        Some("sqlite:///data/news.db".to_string()),
        Some("redis://valkey:6379".to_string()),
        Some("tok".to_string()),
        Some("8080".to_string()),
        Some("/srv/www".to_string()),
    )
    .unwrap();
    assert_eq!(c.port, 8080);
    assert_eq!(c.static_dir.as_deref(), Some("/srv/www"));
    assert!(matches!(
        Config::from_vars(None, None, None, Some("x".to_string()), None),
        Err(ConfigError::MissingCliToken)
    ));
    assert!(matches!(
        Config::from_vars(None, None, Some("t".to_string()), Some("70000".to_string()), None),
        Err(ConfigError::BadPort(PortError::PosOverflow))
    ));
}

#[test]
fn port_numbers_parse_as_u16() {
    for s in ["", "+", "-", "-1", "12a", "+80", "0", "65535", "65536", "0080", "99999a", "٣"] {
        let ours = parse_port(s);
        let std = s.parse::<u16>();
        match (ours, std) {
            (Ok(a), Ok(b)) => assert_eq!(a, b, "{s}"),
            (Err(e), Err(f)) => assert_eq!(e.message(), f.to_string(), "{s}"),
            (a, b) => panic!("{s}: {a:?} vs {b:?}"),
        }
    }
}

#[test]
fn cli_config() {
    assert_eq!(trim_end_slashes("http://localhost:3000//"), "http://localhost:3000");
    assert_eq!(trim_end_slashes("///"), "");
    let c = CliConfig::from_file_values("http://news.example/", "t".to_string());
    assert_eq!(c.base_url, "http://news.example");
    assert_eq!(config_path(Some("/home/alice".to_string())), "/home/alice/.config/news-cli/config.toml");
    assert_eq!(config_path(Some("/root/".to_string())), "/root/.config/news-cli/config.toml");
    assert_eq!(config_path(None), "/home/user/.config/news-cli/config.toml");
}

#[test]
fn cli_requests() {
    let call = ArticleCmd::List { status: "all".to_string() }.request();
    assert_eq!(call.method, Method::Get);
    assert_eq!(call.path, "/api/manage/articles");
    assert_eq!(call.url("http://x"), "http://x/api/manage/articles");
    let call = ArticleCmd::List { status: "draft".to_string() }.request();
    assert_eq!(call.path, "/api/manage/articles?status=draft");
    let call = ArticleCmd::Create {
        title: "T".to_string(),
        author: "A".to_string(),
        body: "B".to_string(),
        excerpt: None,
        category_id: Some(3),
    }
    .request();
    assert_eq!(call.method, Method::Post);
    assert_eq!(
        body_of(&call),
        vec![
            ("title".to_string(), "\"T\"".to_string()),
            ("author_name".to_string(), "\"A\"".to_string()),
            ("body".to_string(), "\"B\"".to_string()),
            ("excerpt".to_string(), "null".to_string()),
            ("category_id".to_string(), "3".to_string()),
        ]
    );
    let call = ArticleCmd::Publish { id: 12 }.request();
    assert_eq!(call.path, "/api/manage/articles/12/publish");
    assert!(call.body.unwrap().is_empty());
    let call = ArticleCmd::Delete { id: 7 }.request();
    assert_eq!((call.method, call.path.as_str()), (Method::Delete, "/api/manage/articles/7"));
    let call = PageCmd::Edit { id: 2, title: None, body: Some("x".to_string()) }.request();
    assert_eq!(call.path, "/api/manage/pages/2");
    assert_eq!(body_of(&call), vec![("title".to_string(), "null".to_string()), ("body".to_string(), "\"x\"".to_string())]);
    let call = CategoryCmd::Delete { slug: "tech".to_string() }.request();
    assert_eq!(call.path, "/api/manage/categories/tech");
    let call = TagCmd::Create { name: "Rust".to_string() }.request();
    assert_eq!(body_of(&call), vec![("name".to_string(), "\"Rust\"".to_string())]);
    let call = SettingsCmd::Assign { key: "site_name".to_string(), value: "N".to_string() }.request();
    assert_eq!((call.method, call.path.as_str()), (Method::Put, "/api/manage/settings/site_name"));
    let call = CacheCmd::Flush { key: None }.request();
    assert_eq!(body_of(&call), vec![("pattern".to_string(), "null".to_string())]);
}

fn new_article(title: &str) -> CreateArticle {
    CreateArticle {
        title: title.to_string(),
        excerpt: Some("ex".to_string()),
        body: "b".to_string(),
        author_name: "a".to_string(),
        category_id: None,
        tag_ids: None,
    }
}

#[test]
fn repository_operations() {
    let mut store = Store::new();
    let a = repo::create_article(&mut store, &new_article("One"), 10).unwrap();
    assert_eq!(a.slug, "one");
    assert_eq!(a.excerpt, "ex");
    // a second article with the same slug breaks the unique slug column
    assert_eq!(repo::create_article(&mut store, &new_article("one"), 11).unwrap_err().status_code(), 500);
    assert!(repo::get_article_by_slug(&store, "none").unwrap().is_none());
    assert!(repo::get_article_by_slug(&store, "one").unwrap().is_some());
    // an update that gives no field leaves the row as it was
    let empty = UpdateArticle { title: None, excerpt: None, body: None, author_name: None, category_id: None, tag_ids: None };
    let same = repo::update_article(&mut store, a.id, &empty, 99).unwrap().unwrap();
    assert_eq!(same.updated_at, 10);
    assert!(repo::update_article(&mut store, 404, &empty, 99).unwrap().is_none());
    let p = repo::publish_article(&mut store, a.id, 20).unwrap().unwrap();
    assert_eq!(p.published_at, Some(20));
    let list = repo::list_articles(&store, &ArticleListParams { page: None, limit: Some(0), tag: None, category: None })
        .unwrap();
    assert_eq!((list.total, list.limit, list.page, list.items.len()), (1, 1, 1, 1));
    let filtered =
        repo::list_articles(&store, &ArticleListParams { page: None, limit: None, tag: Some("x".to_string()), category: None });
    assert_eq!(filtered.unwrap_err().status_code(), 500);
    let arch = repo::archive_article(&mut store, a.id, 30).unwrap().unwrap();
    assert_eq!(arch.status.as_str(), "archived");
    assert_eq!(arch.published_at, Some(20));
    assert!(repo::delete_article(&mut store, a.id).unwrap());
    assert!(!repo::delete_article(&mut store, a.id).unwrap());
    assert!(repo::publish_article(&mut store, a.id, 40).unwrap().is_none());
}

#[test]
fn ids_are_never_reused() {
    let mut store = Store::new();
    let a = repo::create_article(&mut store, &new_article("First"), 1).unwrap();
    assert!(repo::delete_article(&mut store, a.id).unwrap());
    let b = repo::create_article(&mut store, &new_article("Second"), 2).unwrap();
    assert_eq!(a.id, 1);
    assert_eq!(b.id, 2);
}

#[test]
fn a_page_never_holds_more_than_its_limit() {
    let mut store = Store::new();
    for (i, t) in ["A", "B", "C", "D", "E"].iter().enumerate() {
        let a = articles::create(&mut store, new_article(t), i as i64).unwrap();
        articles::publish(&mut store, a.id, 100 + i as i64).unwrap();
    }
    let params = |page, limit| ArticleListParams { page, limit, tag: None, category: None };
    let p = params(Some(1), Some(2));
    assert!(articles::offset_fits(&p));
    let (items, total) = articles::list(&store, &p, None).unwrap();
    assert_eq!((items.len(), total), (2, 5));
    // latest publication first
    assert_eq!(items[0].article.title, "E");
    let p = params(Some(3), Some(2));
    let (items, _) = articles::list(&store, &p, None).unwrap();
    assert_eq!(items.len(), 1);
    assert_eq!(items[0].article.title, "A");
    // a limit above 100 is brought down to 100
    let p = params(None, Some(1000));
    let (items, _) = articles::list(&store, &p, None).unwrap();
    assert_eq!(items.len(), 5);
    // a skip count that overflows is caught before the listing
    assert!(!articles::offset_fits(&params(Some(i64::MAX), Some(100))));
    assert!(!repo::clamped_offset_fits(&params(Some(i64::MAX), Some(100))));
    assert!(repo::clamped_offset_fits(&params(Some(i64::MAX), Some(1))));
}

#[test]
fn status_names_read_back() {
    for s in [ArticleStatus::Draft, ArticleStatus::Published, ArticleStatus::Archived] {
        assert_eq!(ArticleStatus::from_name(s.as_str()), Some(s));
    }
    assert_eq!(ArticleStatus::from_name("deleted"), None);
    assert_eq!(PageStatus::from_name("published"), Some(PageStatus::Published));
    assert_eq!(PageStatus::from_name("archived"), None);
}

fn sample_tables() -> Tables {
    let mut store = Store::new();
    let a = repo::create_article(&mut store, &new_article("Kept"), 5).unwrap();
    let tag = news_site::db::tags::create(&mut store, news_site::common::CreateTag { name: "Rust".to_string() }).unwrap();
    let mut input = new_article("Linked");
    input.tag_ids = Some(vec![tag.id]);
    repo::create_article(&mut store, &input, 6).unwrap();
    assert!(repo::delete_article(&mut store, a.id).unwrap());
    store.tables()
}

#[test]
fn saved_tables_load_back() {
    let t = sample_tables();
    assert_eq!(t.article_seq, 2);
    assert_eq!(t.articles.len(), 1);
    assert_eq!(t.links, vec![(2, 1)]);
    let store = Store::from_tables(t).unwrap();
    let again = store.tables();
    assert_eq!(again.articles[0].slug, "linked");
    assert_eq!(again.settings.len(), 3);
    // the sequence goes on from where it was
    let mut store = store;
    let b = repo::create_article(&mut store, &new_article("Third"), 7).unwrap();
    assert_eq!(b.id, 3);
}

#[test]
fn broken_tables_are_refused() {
    let mut t = sample_tables();
    t.article_seq = 1;
    assert!(Store::from_tables(t).is_none());

    let mut t = sample_tables();
    t.tags.push(Tag { id: 2, slug: "rust".to_string(), name: "Rust again".to_string() });
    t.tag_seq = 2;
    assert!(Store::from_tables(t).is_none());

    let mut t = sample_tables();
    t.links.push((9, 1));
    assert!(Store::from_tables(t).is_none());

    let mut t = sample_tables();
    t.links.push((2, 1));
    assert!(Store::from_tables(t).is_none());

    let mut t = sample_tables();
    t.articles[0].category_id = Some(4);
    assert!(Store::from_tables(t).is_none());

    let mut t = sample_tables();
    t.categories.push(Category { id: 4, slug: "c".to_string(), name: "C".to_string(), description: String::new() });
    t.category_seq = 4;
    t.articles[0].category_id = Some(4);
    assert!(Store::from_tables(t).is_some());

    let mut t = sample_tables();
    t.settings.push(Setting { key: "site_name".to_string(), value: "x".to_string() });
    assert!(Store::from_tables(t).is_none());

    let mut t = sample_tables();
    t.page_seq = -1;
    assert!(Store::from_tables(t).is_none());
}

#[test]
fn a_changed_article_is_forgotten() {
    let mut store = Store::new();
    let a = manage_articles::create_article(&mut store, new_article("Cached"), 1).result.unwrap();
    manage_articles::publish_article(&mut store, a.id, 2).result.unwrap();
    let read = public_articles::get_article(&store, "cached");
    let kept = match &read.cache_ops[..] {
        [CacheOp::Keep(k, ttl)] => {
            assert_eq!(*ttl, 3600);
            k.clone()
        }
        _ => panic!("the read keeps its answer"),
    };
    let change = manage_articles::archive_article(&mut store, a.id, 3);
    assert!(change.cache_ops.iter().any(|op| matches!(op, CacheOp::Forget(k) if *k == kept)));
}

#[test]
fn a_changed_article_forgets_every_listing() {
    let mut store = Store::new();
    let created = manage_articles::create_article(&mut store, new_article("Listed"), 1);
    match &created.cache_ops[..] {
        [CacheOp::ForgetMatching(p), CacheOp::Forget(f)] => {
            assert_eq!(p, "articles:list*");
            assert_eq!(f, "feed:homepage");
        }
        _ => panic!("a new article forgets the listings and the feed"),
    }
}

#[test]
fn manage_listing_filters_by_status() {
    let mut store = Store::new();
    for (i, t) in ["Draft one", "Draft two", "Out"].iter().enumerate() {
        manage_articles::create_article(&mut store, new_article(t), i as i64).result.unwrap();
    }
    manage_articles::publish_article(&mut store, 3, 10).result.unwrap();
    let params = ArticleListParams { page: None, limit: None, tag: None, category: None };
    let all = manage_articles::list_articles(&store, &params, None).unwrap();
    assert_eq!((all.total, all.items.len()), (3, 3));
    let drafts = manage_articles::list_articles(&store, &params, Some("draft")).unwrap();
    assert_eq!((drafts.total, drafts.items.len()), (2, 2));
    assert!(drafts.items.iter().all(|x| x.article.status == ArticleStatus::Draft));
    let published = manage_articles::list_articles(&store, &params, Some("published")).unwrap();
    assert_eq!(published.items[0].article.title, "Out");
    let none = manage_articles::list_articles(&store, &params, Some("bogus")).unwrap();
    assert_eq!((none.total, none.items.len(), none.page, none.limit), (0, 0, 1, 20));
}

#[test]
fn a_category_is_edited_by_slug_or_by_id() {
    let mut store = Store::new();
    let c = manage_categories::create_category(
        &mut store,
        news_site::common::CreateCategory { name: "Science".to_string(), slug: None, description: None },
    )
    .result
    .unwrap();
    assert_eq!((c.id, c.slug.as_str()), (1, "science"));
    let by_id = manage_categories::update_category(
        &mut store,
        "1",
        news_site::common::UpdateCategory { name: Some("Physics".to_string()), description: None },
    );
    assert_eq!(by_id.result.unwrap().name, "Physics");
    let by_slug = manage_categories::update_category(
        &mut store,
        "science",
        news_site::common::UpdateCategory { name: None, description: Some("All of it".to_string()) },
    );
    assert_eq!(by_slug.result.unwrap().description, "All of it");
    let missing = manage_categories::update_category(
        &mut store,
        "2",
        news_site::common::UpdateCategory { name: Some("X".to_string()), description: None },
    );
    assert_eq!(missing.result.unwrap_err().status_code(), 404);
    // the command line edits by id, on the path that the update reads
    let call = CategoryCmd::Edit { id: 1, name: Some("N".to_string()), description: None }.request();
    assert_eq!(call.path, "/api/manage/categories/1");
}


fn apply_cache(cache: &mut std::collections::HashSet<String>, ops: &[CacheOp]) {
    for op in ops {
        match op {
            CacheOp::Forget(k) => {
                cache.remove(k);
            }
            CacheOp::Keep(k, _) => {
                cache.insert(k.clone());
            }
            CacheOp::ForgetMatching(p) => {
                let prefix = p.trim_end_matches('*').to_string();
                cache.retain(|k| !k.starts_with(&prefix));
            }
        }
    }
}

#[test]
fn the_cache_never_serves_an_archived_article() {
    let mut store = Store::new();
    let mut cache = std::collections::HashSet::new();
    let a = manage_articles::create_article(&mut store, new_article("Served"), 1);
    apply_cache(&mut cache, &a.cache_ops);
    let id = a.result.unwrap().id;
    let p = manage_articles::publish_article(&mut store, id, 2);
    apply_cache(&mut cache, &p.cache_ops);
    let read = public_articles::get_article(&store, "served");
    apply_cache(&mut cache, &read.cache_ops);
    let params = ArticleListParams { page: None, limit: None, tag: None, category: None };
    let listing = public_articles::list_articles(&store, &params);
    apply_cache(&mut cache, &listing.cache_ops);
    assert!(cache.contains("articles:slug:served"));
    assert_eq!(cache.len(), 2);
    let archived = manage_articles::archive_article(&mut store, id, 3);
    apply_cache(&mut cache, &archived.cache_ops);
    // neither the article's entry nor the listing survives
    assert!(cache.is_empty());
    assert_eq!(public_articles::get_article(&store, "served").result.unwrap_err().status_code(), 404);
    let (items, _) = articles::list(&store, &params, Some(ArticleStatus::Published)).unwrap();
    assert!(items.is_empty());
}

#[test]
fn setting_a_value_twice_is_setting_it_once() {
    let mut store = Store::new();
    news_site::db::settings::set(&mut store, "theme", "dark").unwrap();
    let once: Vec<(String, String)> =
        news_site::db::settings::get_all(&store).unwrap().into_iter().map(|s| (s.key, s.value)).collect();
    news_site::db::settings::set(&mut store, "theme", "dark").unwrap();
    let twice: Vec<(String, String)> =
        news_site::db::settings::get_all(&store).unwrap().into_iter().map(|s| (s.key, s.value)).collect();
    assert_eq!(once, twice);
    assert_eq!(once.len(), 4);
}
