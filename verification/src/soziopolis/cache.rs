//! When fetched listing pages may be reused: the rules of the page cache
//! kept in memory and on disk. The cache itself lives with the caller.
use vstd::prelude::*;
use crate::database::{default_hash_hex, hash_hex, is_hex16};
use crate::text::{append_chars, chars_of, lit, string_of};

verus! {

/// A page kept in memory is reused for this many seconds.
pub const HTML_CACHE_TTL_SECS: u64 = 180;

/// A page kept on disk is reused for this many seconds.
pub const HTML_DISK_CACHE_TTL_SECS: u64 = 900;

/// At most this many pages are kept in memory.
pub const HTML_CACHE_CAPACITY: usize = 96;

/// The file a page is kept in on disk: the hash of its address, in hex,
/// with `.html`.
pub fn browse_cache_file_name(url: &str) -> (res: String)
    ensures
        res@ == default_hash_hex(url@) + ".html"@,
        is_hex16(res@.subrange(0, 16)),
{
    let hex = hash_hex(url);
    let mut name = chars_of(hex.as_str());
    append_chars(&mut name, &lit(".html"));
    let res = string_of(&name);
    assert(res@.subrange(0, 16) =~= hex@);
    res
}

/// Whether a page fetched `age_secs` seconds ago may be reused from memory.
pub fn memory_copy_fresh(age_secs: u64) -> (res: bool)
    ensures
        res == (age_secs <= HTML_CACHE_TTL_SECS),
{
    age_secs <= HTML_CACHE_TTL_SECS
}

/// Whether a page written to disk `age_secs` seconds ago may be reused.
pub fn disk_copy_fresh(age_secs: u64) -> (res: bool)
    ensures
        res == (age_secs <= HTML_DISK_CACHE_TTL_SECS),
{
    age_secs <= HTML_DISK_CACHE_TTL_SECS
}

/// Whether keeping another page in memory first needs room: the cache is
/// full and the page is not in it yet.
pub fn needs_eviction(cached: usize, already_cached: bool) -> (res: bool)
    ensures
        res == (cached >= HTML_CACHE_CAPACITY && !already_cached),
{
    cached >= HTML_CACHE_CAPACITY && !already_cached
}

/// The entry to drop to make room: the one fetched earliest (the first of
/// several fetched at the same time); `None` when there are none.
pub fn stalest_entry(fetched_at: &Vec<u64>) -> (res: Option<usize>)
    ensures
        match res {
            Some(i) => i < fetched_at@.len() && (forall|k: int| 0 <= k < fetched_at@.len() ==> fetched_at@[i as int] <= #[trigger] fetched_at@[k])
                && (forall|k: int| 0 <= k < i ==> fetched_at@[i as int] < #[trigger] fetched_at@[k]),
            None => fetched_at@.len() == 0,
        },
{
    if fetched_at.len() == 0 {
        return None;
    }
    let mut best: usize = 0;
    let mut i: usize = 1;
    while i < fetched_at.len()
        invariant
            1 <= i <= fetched_at@.len(),
            best < i,
            forall|k: int| 0 <= k < i ==> fetched_at@[best as int] <= #[trigger] fetched_at@[k],
            forall|k: int| 0 <= k < best ==> fetched_at@[best as int] < #[trigger] fetched_at@[k],
        decreases fetched_at@.len() - i,
    {
        if fetched_at[i] < fetched_at[best] {
            best = i;
        }
        i = i + 1;
    }
    Some(best)
}

} // verus!
