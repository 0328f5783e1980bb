//! `news-cli page ...`.
use vstd::prelude::*;
use crate::cli::{ApiCall, Method, JsonValue, json_text, json_opt_text, fields_are};
use super::{id_path, make_id_path, field};

verus! {

#[derive(Debug)]
pub enum PageCmd {
    List,
    Create { title: String, slug: String, body: Option<String> },
    Edit { id: i64, title: Option<String>, body: Option<String> },
    Publish { id: i64 },
    Delete { id: i64 },
}

impl PageCmd {
    /// The request that the command sends.
    pub fn request(self) -> (r: ApiCall)
        ensures
            match self {
                PageCmd::List => {
                    &&& r.method == Method::Get
                    &&& r.path@ == "/api/manage/pages"@
                    &&& r.body is None
                },
                PageCmd::Create { title, slug, body } => {
                    &&& r.method == Method::Post
                    &&& r.path@ == "/api/manage/pages"@
                    &&& fields_are(
                        r.body,
                        seq!["title"@, "slug"@, "body"@],
                        seq![JsonValue::Text(title), JsonValue::Text(slug), json_text(body)],
                    )
                },
                PageCmd::Edit { id, title, body } => {
                    &&& r.method == Method::Put
                    &&& r.path@ == id_path("/api/manage/pages/"@, id, ""@)
                    &&& fields_are(r.body, seq!["title"@, "body"@], seq![json_text(title), json_text(body)])
                },
                PageCmd::Publish { id } => {
                    &&& r.method == Method::Post
                    &&& r.path@ == id_path("/api/manage/pages/"@, id, "/publish"@)
                    &&& fields_are(r.body, seq![], seq![])
                },
                PageCmd::Delete { id } => {
                    &&& r.method == Method::Delete
                    &&& r.path@ == id_path("/api/manage/pages/"@, id, ""@)
                    &&& r.body is None
                },
            },
    {
        match self {
            PageCmd::List => ApiCall { method: Method::Get, path: String::from_str("/api/manage/pages"), body: None },
            PageCmd::Create { title, slug, body } => {
                let mut b = Vec::new();
                b.push(field("title", JsonValue::Text(title)));
                b.push(field("slug", JsonValue::Text(slug)));
                b.push(field("body", json_opt_text(body)));
                ApiCall { method: Method::Post, path: String::from_str("/api/manage/pages"), body: Some(b) }
            },
            PageCmd::Edit { id, title, body } => {
                let mut b = Vec::new();
                b.push(field("title", json_opt_text(title)));
                b.push(field("body", json_opt_text(body)));
                ApiCall { method: Method::Put, path: make_id_path("/api/manage/pages/", id, ""), body: Some(b) }
            },
            PageCmd::Publish { id } => ApiCall {
                method: Method::Post,
                path: make_id_path("/api/manage/pages/", id, "/publish"),
                body: Some(Vec::new()),
            },
            PageCmd::Delete { id } => ApiCall {
                method: Method::Delete,
                path: make_id_path("/api/manage/pages/", id, ""),
                body: None,
            },
        }
    }
}

} // verus!
