//! Performance counters of the browse cache, library queries and refreshes.
//! The process keeps one set of counters; these functions update a set.
use vstd::prelude::*;

verus! {

/// Counts and accumulated times.
#[derive(Debug, Default, Clone)]
pub struct PerfCounters {
    pub browse_cache_hits: u64,
    pub browse_cache_misses: u64,
    pub browse_summary_cache_hits: u64,
    pub browse_summary_cache_misses: u64,
    pub library_page_queries: u64,
    pub library_page_query_time_ms_total: u64,
    pub content_refreshes: u64,
    pub content_refresh_time_ms_total: u64,
}

/// A copy of the counters.
pub fn snapshot(counters: &PerfCounters) -> (res: PerfCounters)
    ensures
        res == *counters,
{
    PerfCounters { ..*counters }
}

/// Counts a browse cache hit.
pub fn record_browse_cache_hit(counters: &mut PerfCounters)
    requires
        old(counters).browse_cache_hits < u64::MAX,
    ensures
        *final(counters) == (PerfCounters { browse_cache_hits: (old(counters).browse_cache_hits + 1) as u64, ..*old(counters) }),
{
    counters.browse_cache_hits = counters.browse_cache_hits + 1;
}

/// Counts a browse cache miss.
pub fn record_browse_cache_miss(counters: &mut PerfCounters)
    requires
        old(counters).browse_cache_misses < u64::MAX,
    ensures
        *final(counters) == (PerfCounters { browse_cache_misses: (old(counters).browse_cache_misses + 1) as u64, ..*old(counters) }),
{
    counters.browse_cache_misses = counters.browse_cache_misses + 1;
}

/// Counts a hit of the listing-summary cache.
pub fn record_browse_summary_cache_hit(counters: &mut PerfCounters)
    requires
        old(counters).browse_summary_cache_hits < u64::MAX,
    ensures
        *final(counters) == (PerfCounters { browse_summary_cache_hits: (old(counters).browse_summary_cache_hits + 1) as u64, ..*old(counters) }),
{
    counters.browse_summary_cache_hits = counters.browse_summary_cache_hits + 1;
}

/// Counts a miss of the listing-summary cache.
pub fn record_browse_summary_cache_miss(counters: &mut PerfCounters)
    requires
        old(counters).browse_summary_cache_misses < u64::MAX,
    ensures
        *final(counters) == (PerfCounters { browse_summary_cache_misses: (old(counters).browse_summary_cache_misses + 1) as u64, ..*old(counters) }),
{
    counters.browse_summary_cache_misses = counters.browse_summary_cache_misses + 1;
}

/// Counts a library page query that took `elapsed_ms` milliseconds.
pub fn record_library_page_query(counters: &mut PerfCounters, elapsed_ms: u64)
    requires
        old(counters).library_page_queries < u64::MAX,
        old(counters).library_page_query_time_ms_total + elapsed_ms <= u64::MAX,
    ensures
        *final(counters) == (PerfCounters {
            library_page_queries: (old(counters).library_page_queries + 1) as u64,
            library_page_query_time_ms_total: (old(counters).library_page_query_time_ms_total + elapsed_ms) as u64,
            ..*old(counters)
        }),
{
    counters.library_page_queries = counters.library_page_queries + 1;
    counters.library_page_query_time_ms_total = counters.library_page_query_time_ms_total + elapsed_ms;
}

/// Counts a content refresh that took `elapsed_ms` milliseconds.
pub fn record_content_refresh(counters: &mut PerfCounters, elapsed_ms: u64)
    requires
        old(counters).content_refreshes < u64::MAX,
        old(counters).content_refresh_time_ms_total + elapsed_ms <= u64::MAX,
    ensures
        *final(counters) == (PerfCounters {
            content_refreshes: (old(counters).content_refreshes + 1) as u64,
            content_refresh_time_ms_total: (old(counters).content_refresh_time_ms_total + elapsed_ms) as u64,
            ..*old(counters)
        }),
{
    counters.content_refreshes = counters.content_refreshes + 1;
    counters.content_refresh_time_ms_total = counters.content_refresh_time_ms_total + elapsed_ms;
}

} // verus!
