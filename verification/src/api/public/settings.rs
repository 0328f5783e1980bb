//! `GET /api/settings`.
use vstd::prelude::*;
use crate::common::Setting;
use crate::db::Store;
use crate::db::order::listing;
use crate::error::AppError;

verus! {

/// All settings, by key.
pub fn get_settings(store: &Store) -> (r: Result<Vec<Setting>, AppError>)
    requires
        store.wf(),
    ensures
        r matches Ok(settings) && settings@ == listing(store@.settings),
{
    crate::db::settings::get_all(store)
}

} // verus!
