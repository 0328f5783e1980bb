//! The commands of the command-line client, and the request each sends.
pub mod article;
pub mod cache;
pub mod category;
pub mod page;
pub mod settings;
pub mod tag;

use vstd::prelude::*;
use crate::cli::JsonValue;
use crate::text::{int_decimal, append_i64};

verus! {

/// `prefix`, the decimal id, then `suffix`.
pub open spec fn id_path(prefix: Seq<char>, id: i64, suffix: Seq<char>) -> Seq<char> {
    prefix + int_decimal(id as int) + suffix
}

pub(crate) fn make_id_path(prefix: &str, id: i64, suffix: &str) -> (r: String)
    ensures
        r@ == id_path(prefix@, id, suffix@),
{
    let mut s = String::from_str(prefix);
    append_i64(&mut s, id);
    s.append(suffix);
    s
}

pub(crate) fn make_text_path(prefix: &str, name: &str) -> (r: String)
    ensures
        r@ == prefix@ + name@,
{
    let mut s = String::from_str(prefix);
    s.append(name);
    s
}

pub(crate) fn field(name: &str, value: JsonValue) -> (r: (String, JsonValue))
    ensures
        r.0@ == name@,
        r.1 == value,
{
    (String::from_str(name), value)
}

} // verus!
