//! The answer cache: its keys, and what a request asks of it.
pub mod keys;

use vstd::prelude::*;

verus! {

/// What a request asks of the cache once it is answered.
#[derive(Debug)]
pub enum CacheOp {
    /// Forget the entry under this key.
    Forget(String),
    /// Keep the answer under this key for this many seconds.
    Keep(String, u64),
    /// Forget every entry whose key matches this glob pattern.
    ForgetMatching(String),
}

} // verus!
