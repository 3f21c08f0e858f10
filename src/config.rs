use vstd::prelude::*;

verus! {

/// Smallest number of engines a pool may be configured with.
pub const MIN_POOL_SIZE: usize = 1;

/// Largest number of engines a pool may be configured with.
pub const MAX_POOL_SIZE: usize = 10;

/// Default number of engines kept in the pool.
pub fn default_engine_pool_size() -> (r: usize)
    ensures
        r == 1,
{
    1
}

/// By default engines are created lazily rather than at startup.
pub fn default_warmup_on_startup() -> (r: bool)
    ensures
        !r,
{
    false
}

/// Default bound on how long a checkout may wait for a free engine.
pub fn default_engine_checkout_timeout_ms() -> (r: u64)
    ensures
        r == 5000,
{
    5000
}

/// Default number of parsed voice styles kept in the cache.
pub fn default_voice_style_cache_size() -> (r: usize)
    ensures
        r == 10,
{
    10
}

/// Errors of the pool and its cache.
#[derive(PartialEq, Eq, Structural, Clone, Copy, Debug)]
pub enum PoolError {
    /// The pool size lies outside 1..=10.
    InvalidPoolSize,
    /// The cache capacity is zero.
    InvalidCacheCapacity,
    /// An engine could not be constructed.
    EngineLoad,
    /// No permit became free before the checkout deadline.
    Timeout,
    /// The pool has been shut down.
    Closed,
}

/// Settings of an engine pool.
#[derive(Clone, Debug)]
pub struct EnginePoolConfig {
    /// Number of engines to keep in the pool.
    pub engine_pool_size: usize,
    /// Whether every engine is created before the pool is handed out.
    pub warmup_on_startup: bool,
    /// Bound on how long a checkout may wait, in milliseconds.
    pub engine_checkout_timeout_ms: u64,
    /// Largest number of voice styles kept in the cache.
    pub voice_style_cache_size: usize,
    /// Directory that holds the model files.
    pub onnx_dir: String,
    /// Whether engines run on a GPU.
    pub use_gpu: bool,
}

impl Default for EnginePoolConfig {
    fn default() -> (r: Self)
        ensures
            r.engine_pool_size == 1,
            !r.warmup_on_startup,
            r.engine_checkout_timeout_ms == 5000,
            r.voice_style_cache_size == 10,
            r.onnx_dir@ == "assets/onnx"@,
            !r.use_gpu,
    {
        EnginePoolConfig {
            engine_pool_size: default_engine_pool_size(),
            warmup_on_startup: default_warmup_on_startup(),
            engine_checkout_timeout_ms: default_engine_checkout_timeout_ms(),
            voice_style_cache_size: default_voice_style_cache_size(),
            onnx_dir: "assets/onnx".to_owned(),
            use_gpu: false,
        }
    }
}

impl EnginePoolConfig {
    /// Checks the size and capacity bounds of the settings.
    pub fn validate(&self) -> (r: Result<(), PoolError>)
        ensures
            r == (if !(MIN_POOL_SIZE <= self.engine_pool_size <= MAX_POOL_SIZE) {
                Err(PoolError::InvalidPoolSize)
            } else if self.voice_style_cache_size == 0 {
                Err(PoolError::InvalidCacheCapacity)
            } else {
                Ok(())
            }),
    {
        if self.engine_pool_size < MIN_POOL_SIZE || self.engine_pool_size > MAX_POOL_SIZE {
            Err(PoolError::InvalidPoolSize)
        } else if self.voice_style_cache_size == 0 {
            Err(PoolError::InvalidCacheCapacity)
        } else {
            Ok(())
        }
    }
}

} // verus!
