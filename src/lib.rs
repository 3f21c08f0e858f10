// Resource pooling and caching for a speech-synthesis server: a bounded pool
// of engines with checkout and release, a cache of parsed voice styles with
// LRU eviction and modification-time invalidation, and the request-level
// decisions around them.
pub mod api;
pub mod cache;
pub mod config;
pub mod pool;
pub mod stats;
pub mod text;
pub mod voice;
