//! `POST /api/manage/cache/flush`.
use vstd::prelude::*;
use crate::api::Reply;
use crate::cache::CacheOp;

verus! {

/// Forgets the cached answers whose keys match `pattern` (every answer when
/// no pattern is given).
pub fn flush(pattern: Option<&str>) -> (r: Reply<()>)
    ensures
        r.result is Ok,
        r.cache_ops@.len() == 1,
        r.cache_ops@[0] matches CacheOp::ForgetMatching(p) && p@ == (match pattern {
            Some(s) => s@,
            None => "*"@,
        }),
{
    let p = match pattern {
        Some(s) => String::from_str(s),
        None => String::from_str("*"),
    };
    let mut ops = Vec::new();
    ops.push(CacheOp::ForgetMatching(p));
    Reply { result: Ok(()), cache_ops: ops }
}

} // verus!
