use supertts::cache::{CacheEntry, FileProbe, VoiceStyleCache};
use supertts::config::PoolError;
use supertts::pool::PoolState;
use supertts::config::EnginePoolConfig;
use supertts::stats::pool_stats;

fn present(modified: u64) -> FileProbe {
    FileProbe { exists: true, modified: Some(modified) }
}

fn key(s: &str) -> String {
    s.to_string()
}

#[test]
fn zero_capacity_is_refused() {
    assert!(matches!(VoiceStyleCache::<u32>::new(0), Err(PoolError::InvalidCacheCapacity)));
    assert!(VoiceStyleCache::<u32>::new(1).is_ok());
}

#[test]
fn entry_validity_follows_file_state() {
    let e = CacheEntry::new(1u32, key("/a.json"), Some(100), 5);
    assert!(e.is_valid(&present(100)));
    assert!(e.is_valid(&present(99)));
    assert!(!e.is_valid(&present(101)));
    assert!(!e.is_valid(&FileProbe { exists: false, modified: Some(100) }));
    assert!(e.is_valid(&FileProbe { exists: true, modified: None }));
    let unknown = CacheEntry::new(1u32, key("/a.json"), None, 5);
    assert!(unknown.is_valid(&present(1000)));
}

#[test]
fn touch_records_the_access_time() {
    let mut e = CacheEntry::new(7u32, key("/a.json"), Some(1), 5);
    e._touch(42);
    assert_eq!(e.last_accessed, 42);
    assert_eq!(e.voice_style, 7);
    assert_eq!(e.file_path, "/a.json");
    assert_eq!(e.file_modified, Some(1));
}

#[test]
fn repeated_lookup_of_unchanged_file_hits() {
    let mut c = VoiceStyleCache::new(4).unwrap();
    assert_eq!(c.lookup(&key("/a.json"), present(10), 1), None);
    assert_eq!(c.misses(), 1);
    assert_eq!(c.insert(key("/a.json"), 11u32, Some(10), 1), None);
    let hit = c.lookup(&key("/a.json"), present(10), 2);
    assert_eq!(hit, Some(0));
    assert_eq!(*c.value_at(0), 11);
    assert_eq!(c.hits(), 1);
    assert_eq!(c.misses(), 1);
}

#[test]
fn modified_file_forces_a_reload() {
    let mut c = VoiceStyleCache::new(4).unwrap();
    assert_eq!(c.insert(key("/a.json"), 1u32, Some(10), 1), None);
    assert_eq!(c.lookup(&key("/a.json"), present(11), 2), None);
    assert_eq!(c.misses(), 1);
    assert_eq!(c.hits(), 0);
    assert_eq!(c.insert(key("/a.json"), 2u32, Some(11), 2), None);
    assert_eq!(c.len(), 1);
    assert_eq!(c.lookup(&key("/a.json"), present(11), 3), Some(0));
    assert_eq!(*c.value_at(0), 2);
}

#[test]
fn deleted_file_is_a_miss() {
    let mut c = VoiceStyleCache::new(2).unwrap();
    c.insert(key("/a.json"), 1u32, Some(10), 1);
    let gone = FileProbe { exists: false, modified: None };
    assert_eq!(c.lookup(&key("/a.json"), gone, 2), None);
    assert_eq!(c.misses(), 1);
}

#[test]
fn inserting_past_capacity_evicts_least_recent() {
    let mut c = VoiceStyleCache::new(3).unwrap();
    assert_eq!(c.insert(key("/a"), 1u32, None, 10), None);
    assert_eq!(c.insert(key("/b"), 2u32, None, 20), None);
    assert_eq!(c.insert(key("/c"), 3u32, None, 30), None);
    assert_eq!(c.insert(key("/d"), 4u32, None, 40), Some(key("/a")));
    assert_eq!(c.len(), 3);
    assert_eq!(c.evictions(), 1);
    assert_eq!(c.lookup(&key("/a"), present(0), 50), None);
}

#[test]
fn access_refreshes_recency() {
    let mut c = VoiceStyleCache::new(3).unwrap();
    c.insert(key("/a"), 1u32, None, 10);
    c.insert(key("/b"), 2u32, None, 20);
    c.insert(key("/c"), 3u32, None, 30);
    assert!(c.lookup(&key("/a"), present(0), 40).is_some());
    assert_eq!(c.insert(key("/d"), 4u32, None, 50), Some(key("/b")));
    assert!(c.lookup(&key("/a"), present(0), 60).is_some());
    assert!(c.lookup(&key("/b"), present(0), 70).is_none());
}

#[test]
fn equal_access_times_evict_lowest_slot() {
    let mut c = VoiceStyleCache::new(2).unwrap();
    c.insert(key("/a"), 1u32, None, 5);
    c.insert(key("/b"), 2u32, None, 5);
    assert_eq!(c.insert(key("/c"), 3u32, None, 6), Some(key("/a")));
}

#[test]
fn replacing_a_path_evicts_nothing() {
    let mut c = VoiceStyleCache::new(1).unwrap();
    c.insert(key("/a"), 1u32, Some(1), 5);
    assert_eq!(c.insert(key("/a"), 2u32, Some(2), 6), None);
    assert_eq!(c.len(), 1);
    assert_eq!(c.evictions(), 0);
}

#[test]
fn cache_of_one_with_a_b_a() {
    let mut c = VoiceStyleCache::new(1).unwrap();
    assert_eq!(c.lookup(&key("/A"), present(1), 1), None);
    c.insert(key("/A"), 1u32, Some(1), 1);
    assert_eq!(c.lookup(&key("/B"), present(1), 2), None);
    assert_eq!(c.insert(key("/B"), 2u32, Some(1), 2), Some(key("/A")));
    assert_eq!(c.lookup(&key("/A"), present(1), 3), None);
    assert_eq!(c.insert(key("/A"), 1u32, Some(1), 3), Some(key("/B")));
    assert_eq!(c.hits(), 0);
    assert_eq!(c.misses(), 3);
    assert_eq!(c.evictions(), 2);
}

#[test]
fn clear_keeps_counters() {
    let mut c = VoiceStyleCache::new(2).unwrap();
    c.insert(key("/a"), 1u32, None, 1);
    c.lookup(&key("/a"), present(0), 2);
    c.clear();
    assert_eq!(c.len(), 0);
    assert_eq!(c.hits(), 1);
    assert_eq!(c.capacity(), 2);
}

#[test]
fn stats_snapshot_reads_pool_and_cache() {
    let mut cfg = EnginePoolConfig::default();
    cfg.engine_pool_size = 2;
    let mut p = PoolState::new(&cfg).unwrap();
    p.add_engine();
    p.add_engine();
    p.checkout();
    let mut c = VoiceStyleCache::new(2).unwrap();
    c.lookup(&key("/a"), present(1), 1);
    c.insert(key("/a"), 1u32, Some(1), 1);
    c.lookup(&key("/a"), present(1), 2);
    let s = pool_stats(&p, &c);
    assert_eq!(s.total_engines, 2);
    assert_eq!(s.available_permits, 1);
    assert_eq!(s.cached_voice_styles, 1);
    assert_eq!(s.total_checkouts, 1);
    assert_eq!(s.cache_hits, 1);
    assert_eq!(s.cache_misses, 1);
    assert_eq!(s.cache_evictions, 0);
    assert_eq!(s.engine_replacements, 0);
}
