//! `news-cli tag ...`.
use vstd::prelude::*;
use crate::cli::{ApiCall, Method, JsonValue, fields_are};
use super::{make_text_path, field};

verus! {

#[derive(Debug)]
pub enum TagCmd {
    List,
    Create { name: String },
    Delete { slug: String },
}

impl TagCmd {
    /// The request that the command sends.
    pub fn request(self) -> (r: ApiCall)
        ensures
            match self {
                TagCmd::List => {
                    &&& r.method == Method::Get
                    &&& r.path@ == "/api/manage/tags"@
                    &&& r.body is None
                },
                TagCmd::Create { name } => {
                    &&& r.method == Method::Post
                    &&& r.path@ == "/api/manage/tags"@
                    &&& fields_are(r.body, seq!["name"@], seq![JsonValue::Text(name)])
                },
                TagCmd::Delete { slug } => {
                    &&& r.method == Method::Delete
                    &&& r.path@ == "/api/manage/tags/"@ + slug@
                    &&& r.body is None
                },
            },
    {
        match self {
            TagCmd::List => ApiCall { method: Method::Get, path: String::from_str("/api/manage/tags"), body: None },
            TagCmd::Create { name } => {
                let mut b = Vec::new();
                b.push(field("name", JsonValue::Text(name)));
                ApiCall { method: Method::Post, path: String::from_str("/api/manage/tags"), body: Some(b) }
            },
            TagCmd::Delete { slug } => ApiCall {
                method: Method::Delete,
                path: make_text_path("/api/manage/tags/", slug.as_str()),
                body: None,
            },
        }
    }
}

} // verus!
