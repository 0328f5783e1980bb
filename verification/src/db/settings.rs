//! Settings: the site's named values (its name, description, address).
use vstd::prelude::*;
use crate::common::Setting;
use crate::error::{AppError, name_missing, name_missing_msg};
use super::{Store, StoreView, setting_index};
use super::order::{listing, sort_rows, keys_distinct};

verus! {

/// Lists all settings by key.
pub fn get_all(store: &Store) -> (r: Result<Vec<Setting>, AppError>)
    requires
        store.wf(),
    ensures
        r matches Ok(settings) && settings@ == listing(store@.settings),
{
    assert(keys_distinct(store@.settings));
    Ok(sort_rows(&store.settings))
}

/// What `set` does: setting `key` gets `value`, in its place when the key
/// is there, else as a new last setting.
pub open spec fn setting_set(v: StoreView, key: Seq<char>, value: Seq<char>, w: StoreView, r: Result<Setting, AppError>) -> bool {
    r matches Ok(s) && s.key@ == key && s.value@ == value && {
        let i = setting_index(v.settings, key);
        if i >= 0 {
            w == v.with_settings(v.settings.update(i, s))
        } else {
            w == v.with_settings(v.settings.push(s))
        }
    }
}

/// Sets setting `key` to `value`, adding it when it is new.
pub fn set(store: &mut Store, key: &str, value: &str) -> (r: Result<Setting, AppError>)
    requires
        old(store).wf(),
    ensures
        final(store).wf(),
        setting_set(old(store)@, key@, value@, final(store)@, r),
{
    Ok(store.put_setting(key, value))
}

/// What `delete` does.
pub open spec fn setting_deleted(v: StoreView, key: Seq<char>, w: StoreView, r: Result<(), AppError>) -> bool {
    let i = setting_index(v.settings, key);
    if i < 0 {
        &&& r matches Err(AppError::NotFound(m)) && m@ == name_missing("setting"@, key)
        &&& w == v
    } else {
        &&& w == v.with_settings(v.settings.remove(i))
        &&& r is Ok
    }
}

/// Removes setting `key`.
pub fn delete(store: &mut Store, key: &str) -> (r: Result<(), AppError>)
    requires
        old(store).wf(),
    ensures
        final(store).wf(),
        setting_deleted(old(store)@, key@, final(store)@, r),
{
    match store.find_setting(key) {
        Some(i) => {
            store.remove_setting(i);
            Ok(())
        },
        None => Err(AppError::NotFound(name_missing_msg("setting", key))),
    }
}

} // verus!
