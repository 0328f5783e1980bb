//! `/api/manage/settings`.
use vstd::prelude::*;
use crate::api::Reply;
use crate::cache::CacheOp;
use crate::common::Setting;
use crate::db::Store;
use crate::db::order::listing;
use crate::db::settings::{setting_set, setting_deleted};
use crate::error::AppError;

verus! {

/// All settings, by key.
pub fn get_settings(store: &Store) -> (r: Result<Vec<Setting>, AppError>)
    requires
        store.wf(),
    ensures
        r matches Ok(settings) && settings@ == listing(store@.settings),
{
    crate::db::settings::get_all(store)
}

/// Sets setting `key` to `value` (see `db::settings::set`).
pub fn set_setting(store: &mut Store, key: &str, value: &str) -> (r: Result<Setting, AppError>)
    requires
        old(store).wf(),
    ensures
        final(store).wf(),
        setting_set(old(store)@, key@, value@, final(store)@, r),
{
    crate::db::settings::set(store, key, value)
}

/// Removes setting `key`; answered with no content.
pub fn delete_setting(store: &mut Store, key: &str) -> (r: Result<(), AppError>)
    requires
        old(store).wf(),
    ensures
        final(store).wf(),
        setting_deleted(old(store)@, key@, final(store)@, r),
{
    crate::db::settings::delete(store, key)
}

/// The cache key patterns that a full flush forgets.
pub open spec fn flush_patterns() -> Seq<Seq<char>> {
    seq!["articles:*"@, "pages:*"@, "tags:*"@, "categories:*"@, "feed:*"@]
}

/// Forgets every cached answer: articles, pages, tags, categories and the
/// feed; answered with no content.
pub fn flush_cache() -> (r: Reply<()>)
    ensures
        r.result is Ok,
        r.cache_ops@.len() == 5,
        forall|i: int| 0 <= i < 5 ==> (#[trigger] r.cache_ops@[i] matches CacheOp::ForgetMatching(p) && p@ == flush_patterns()[i]),
{
    let mut ops = Vec::new();
    ops.push(CacheOp::ForgetMatching(String::from_str("articles:*")));
    ops.push(CacheOp::ForgetMatching(String::from_str("pages:*")));
    ops.push(CacheOp::ForgetMatching(String::from_str("tags:*")));
    ops.push(CacheOp::ForgetMatching(String::from_str("categories:*")));
    ops.push(CacheOp::ForgetMatching(String::from_str("feed:*")));
    Reply { result: Ok(()), cache_ops: ops }
}

} // verus!
