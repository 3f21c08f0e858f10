use vstd::prelude::*;

use crate::cache::VoiceStyleCache;
use crate::pool::{available, PoolState};

verus! {

/// A read-only snapshot of the pool and its cache for operators.
#[derive(PartialEq, Eq, Structural, Clone, Copy, Debug)]
pub struct PoolStats {
    pub total_engines: usize,
    pub available_permits: usize,
    pub cached_voice_styles: usize,
    pub total_checkouts: u64,
    pub cache_hits: u64,
    pub cache_misses: u64,
    pub cache_evictions: u64,
    pub engine_replacements: u64,
}

/// Reads the counters and occupancy of `pool` and `cache`.
pub fn pool_stats<V>(pool: &PoolState, cache: &VoiceStyleCache<V>) -> (r: PoolStats)
    requires
        pool.wf(),
    ensures
        r.total_engines == pool@.busy.len(),
        r.available_permits == available(pool@),
        r.cached_voice_styles == cache@.entries.len(),
        r.total_checkouts == pool@.total_checkouts,
        r.cache_hits == cache@.hits,
        r.cache_misses == cache@.misses,
        r.cache_evictions == cache@.evictions,
        r.engine_replacements == pool@.engine_replacements,
{
    PoolStats {
        total_engines: pool.total_engines(),
        available_permits: pool.available_permits(),
        cached_voice_styles: cache.len(),
        total_checkouts: pool.total_checkouts(),
        cache_hits: cache.hits(),
        cache_misses: cache.misses(),
        cache_evictions: cache.evictions(),
        engine_replacements: pool.engine_replacements(),
    }
}

} // verus!
