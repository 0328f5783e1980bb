//! `news-cli cache ...`.
use vstd::prelude::*;
use crate::cli::{ApiCall, Method, JsonValue, json_text, json_opt_text, fields_are};
use super::field;

verus! {

#[derive(Debug)]
pub enum CacheCmd {
    Flush { key: Option<String> },
}

impl CacheCmd {
    /// The request that the command sends.
    pub fn request(self) -> (r: ApiCall)
        ensures
            match self {
                CacheCmd::Flush { key } => {
                    &&& r.method == Method::Post
                    &&& r.path@ == "/api/manage/cache/flush"@
                    &&& fields_are(r.body, seq!["pattern"@], seq![json_text(key)])
                },
            },
    {
        match self {
            CacheCmd::Flush { key } => {
                let mut b = Vec::new();
                b.push(field("pattern", json_opt_text(key)));
                ApiCall { method: Method::Post, path: String::from_str("/api/manage/cache/flush"), body: Some(b) }
            },
        }
    }
}

} // verus!
