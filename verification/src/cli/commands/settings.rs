//! `news-cli settings ...`.
use vstd::prelude::*;
use crate::cli::{ApiCall, Method, JsonValue, fields_are};
use super::{make_text_path, field};

verus! {

#[derive(Debug)]
pub enum SettingsCmd {
    Show,
    Assign { key: String, value: String },
}

impl SettingsCmd {
    /// The request that the command sends.
    pub fn request(self) -> (r: ApiCall)
        ensures
            match self {
                SettingsCmd::Show => {
                    &&& r.method == Method::Get
                    &&& r.path@ == "/api/manage/settings"@
                    &&& r.body is None
                },
                SettingsCmd::Assign { key, value } => {
                    &&& r.method == Method::Put
                    &&& r.path@ == "/api/manage/settings/"@ + key@
                    &&& fields_are(r.body, seq!["value"@], seq![JsonValue::Text(value)])
                },
            },
    {
        match self {
            SettingsCmd::Show => ApiCall {
                method: Method::Get,
                path: String::from_str("/api/manage/settings"),
                body: None,
            },
            SettingsCmd::Assign { key, value } => {
                let mut b = Vec::new();
                b.push(field("value", JsonValue::Text(value)));
                ApiCall {
                    method: Method::Put,
                    path: make_text_path("/api/manage/settings/", key.as_str()),
                    body: Some(b),
                }
            },
        }
    }
}

} // verus!
