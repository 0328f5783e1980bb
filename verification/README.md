# news_site

The back end of a small news site: articles with tags and categories,
static pages, site settings, a JSON API with a public and a token-guarded
manage part, an answer cache on Valkey/Redis, and a management command line.

## Layout

- `src/` — the library, verified with Verus.
  - `db/` — the content store: the tables, the rules that hold between them
    (`StoreView::wf`), and each operation's exact effect (`db/articles.rs`,
    `pages.rs`, `tags.rs`, `categories.rs`, `settings.rs`); listing order and
    sorting (`order.rs`); the repository-style article operations
    (`db/db/articles.rs`); handing out and checking the tables (`snapshot.rs`); and
    the laws that relate the operations (`laws.rs`).
  - `api/` — what each request does to the store, what it answers and what it
    asks of the cache (`Reply`), and the token check.
  - `cache/` — cache keys and the cache operations a request asks for.
  - `cli/` — the command-line client's configuration and the request each
    command sends.
  - `config.rs`, `error.rs`, `common.rs`, `slugs.rs`, `text.rs` — server
    configuration, error answers, content types, slugs, text helpers.
- `tests/` — the test suites.
- `app/` — the program around the library: the axum server, the Redis
  client, the SQLite database that holds the store's tables between runs,
  and the `news-cli` command line (`news_site cli ...`).
