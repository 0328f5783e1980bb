//! `news-cli article ...`.
use vstd::prelude::*;
use crate::cli::{ApiCall, Method, JsonValue, json_text, json_int, json_opt_text, json_opt_int, fields_are};
use super::{id_path, make_id_path, field};

verus! {

#[derive(Debug)]
pub enum ArticleCmd {
    /// List articles
    List { status: String },
    /// Create a new draft article
    Create {
        title: String,
        author: String,
        body: String,
        excerpt: Option<String>,
        category_id: Option<i64>,
    },
    /// Update an article by ID
    Edit {
        id: i64,
        title: Option<String>,
        body: Option<String>,
        excerpt: Option<String>,
        author: Option<String>,
    },
    /// Publish a draft article
    Publish { id: i64 },
    /// Archive a published article
    Archive { id: i64 },
    /// Delete an article
    Delete { id: i64 },
}

impl ArticleCmd {
    /// The request that the command sends.
    pub fn request(self) -> (r: ApiCall)
        ensures
            match self {
                ArticleCmd::List { status } => {
                    &&& r.method == Method::Get
                    &&& r.path@ == "/api/manage/articles"@ + (if status@ == "all"@ {
                        Seq::<char>::empty()
                    } else {
                        "?status="@ + status@
                    })
                    &&& r.body is None
                },
                ArticleCmd::Create { title, author, body, excerpt, category_id } => {
                    &&& r.method == Method::Post
                    &&& r.path@ == "/api/manage/articles"@
                    &&& fields_are(
                        r.body,
                        seq!["title"@, "author_name"@, "body"@, "excerpt"@, "category_id"@],
                        seq![JsonValue::Text(title), JsonValue::Text(author), JsonValue::Text(body), json_text(excerpt), json_int(category_id)],
                    )
                },
                ArticleCmd::Edit { id, title, body, excerpt, author } => {
                    &&& r.method == Method::Put
                    &&& r.path@ == id_path("/api/manage/articles/"@, id, ""@)
                    &&& fields_are(
                        r.body,
                        seq!["title"@, "body"@, "excerpt"@, "author_name"@],
                        seq![json_text(title), json_text(body), json_text(excerpt), json_text(author)],
                    )
                },
                ArticleCmd::Publish { id } => {
                    &&& r.method == Method::Post
                    &&& r.path@ == id_path("/api/manage/articles/"@, id, "/publish"@)
                    &&& fields_are(r.body, seq![], seq![])
                },
                ArticleCmd::Archive { id } => {
                    &&& r.method == Method::Post
                    &&& r.path@ == id_path("/api/manage/articles/"@, id, "/archive"@)
                    &&& fields_are(r.body, seq![], seq![])
                },
                ArticleCmd::Delete { id } => {
                    &&& r.method == Method::Delete
                    &&& r.path@ == id_path("/api/manage/articles/"@, id, ""@)
                    &&& r.body is None
                },
            },
    {
        match self {
            ArticleCmd::List { status } => {
                let mut path = String::from_str("/api/manage/articles");
                if !crate::text::str_eq(status.as_str(), "all") {
                    path.append("?status=");
                    path.append(status.as_str());
                }
                proof {
                    assert(path@ =~= "/api/manage/articles"@ + (if status@ == "all"@ {
                        Seq::<char>::empty()
                    } else {
                        "?status="@ + status@
                    }));
                }
                ApiCall { method: Method::Get, path, body: None }
            },
            ArticleCmd::Create { title, author, body, excerpt, category_id } => {
                let mut b = Vec::new();
                b.push(field("title", JsonValue::Text(title)));
                b.push(field("author_name", JsonValue::Text(author)));
                b.push(field("body", JsonValue::Text(body)));
                b.push(field("excerpt", json_opt_text(excerpt)));
                b.push(field("category_id", json_opt_int(category_id)));
                ApiCall { method: Method::Post, path: String::from_str("/api/manage/articles"), body: Some(b) }
            },
            ArticleCmd::Edit { id, title, body, excerpt, author } => {
                let mut b = Vec::new();
                b.push(field("title", json_opt_text(title)));
                b.push(field("body", json_opt_text(body)));
                b.push(field("excerpt", json_opt_text(excerpt)));
                b.push(field("author_name", json_opt_text(author)));
                ApiCall { method: Method::Put, path: make_id_path("/api/manage/articles/", id, ""), body: Some(b) }
            },
            ArticleCmd::Publish { id } => ApiCall {
                method: Method::Post,
                path: make_id_path("/api/manage/articles/", id, "/publish"),
                body: Some(Vec::new()),
            },
            ArticleCmd::Archive { id } => ApiCall {
                method: Method::Post,
                path: make_id_path("/api/manage/articles/", id, "/archive"),
                body: Some(Vec::new()),
            },
            ArticleCmd::Delete { id } => ApiCall {
                method: Method::Delete,
                path: make_id_path("/api/manage/articles/", id, ""),
                body: None,
            },
        }
    }
}

} // verus!
