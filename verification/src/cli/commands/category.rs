//! `news-cli category ...`.
use vstd::prelude::*;
use crate::cli::{ApiCall, Method, JsonValue, json_text, json_opt_text, fields_are};
use super::{id_path, make_id_path, make_text_path, field};

verus! {

#[derive(Debug)]
pub enum CategoryCmd {
    List,
    Create { name: String, slug: Option<String>, description: Option<String> },
    Edit { id: i64, name: Option<String>, description: Option<String> },
    Delete { slug: String },
}

impl CategoryCmd {
    /// The request that the command sends.
    pub fn request(self) -> (r: ApiCall)
        ensures
            match self {
                CategoryCmd::List => {
                    &&& r.method == Method::Get
                    &&& r.path@ == "/api/manage/categories"@
                    &&& r.body is None
                },
                CategoryCmd::Create { name, slug, description } => {
                    &&& r.method == Method::Post
                    &&& r.path@ == "/api/manage/categories"@
                    &&& fields_are(
                        r.body,
                        seq!["name"@, "slug"@, "description"@],
                        seq![JsonValue::Text(name), json_text(slug), json_text(description)],
                    )
                },
                CategoryCmd::Edit { id, name, description } => {
                    &&& r.method == Method::Put
                    &&& r.path@ == id_path("/api/manage/categories/"@, id, ""@)
                    &&& fields_are(r.body, seq!["name"@, "description"@], seq![json_text(name), json_text(description)])
                },
                CategoryCmd::Delete { slug } => {
                    &&& r.method == Method::Delete
                    &&& r.path@ == "/api/manage/categories/"@ + slug@
                    &&& r.body is None
                },
            },
    {
        match self {
            CategoryCmd::List => ApiCall {
                method: Method::Get,
                path: String::from_str("/api/manage/categories"),
                body: None,
            },
            CategoryCmd::Create { name, slug, description } => {
                let mut b = Vec::new();
                b.push(field("name", JsonValue::Text(name)));
                b.push(field("slug", json_opt_text(slug)));
                b.push(field("description", json_opt_text(description)));
                ApiCall { method: Method::Post, path: String::from_str("/api/manage/categories"), body: Some(b) }
            },
            CategoryCmd::Edit { id, name, description } => {
                let mut b = Vec::new();
                b.push(field("name", json_opt_text(name)));
                b.push(field("description", json_opt_text(description)));
                ApiCall {
                    method: Method::Put,
                    path: make_id_path("/api/manage/categories/", id, ""),
                    body: Some(b),
                }
            },
            CategoryCmd::Delete { slug } => ApiCall {
                method: Method::Delete,
                path: make_text_path("/api/manage/categories/", slug.as_str()),
                body: None,
            },
        }
    }
}

} // verus!
