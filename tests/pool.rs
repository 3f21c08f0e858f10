use supertts::config::{
    default_engine_checkout_timeout_ms, default_engine_pool_size, default_voice_style_cache_size,
    default_warmup_on_startup, EnginePoolConfig, PoolError,
};
use supertts::pool::{checkout_wait_budget, CheckoutStep, PoolState};

fn config_of(size: usize) -> EnginePoolConfig {
    let mut c = EnginePoolConfig::default();
    c.engine_pool_size = size;
    c
}

fn warm_pool(size: usize) -> PoolState {
    let mut p = PoolState::new(&config_of(size)).unwrap();
    for i in 0..size {
        assert_eq!(p.add_engine(), Some(i));
    }
    p
}

#[test]
fn defaults_match_documented_values() {
    assert_eq!(default_engine_pool_size(), 1);
    assert!(!default_warmup_on_startup());
    assert_eq!(default_engine_checkout_timeout_ms(), 5000);
    assert_eq!(default_voice_style_cache_size(), 10);
    let c = EnginePoolConfig::default();
    assert_eq!(c.engine_pool_size, 1);
    assert!(!c.warmup_on_startup);
    assert_eq!(c.engine_checkout_timeout_ms, 5000);
    assert_eq!(c.voice_style_cache_size, 10);
    assert_eq!(c.onnx_dir, "assets/onnx");
    assert!(!c.use_gpu);
}

#[test]
fn pool_size_bounds_are_checked() {
    assert!(matches!(PoolState::new(&config_of(0)), Err(PoolError::InvalidPoolSize)));
    assert!(matches!(PoolState::new(&config_of(11)), Err(PoolError::InvalidPoolSize)));
    assert!(PoolState::new(&config_of(1)).is_ok());
    assert!(PoolState::new(&config_of(10)).is_ok());
}

#[test]
fn config_validation_reports_each_error() {
    assert_eq!(config_of(0).validate(), Err(PoolError::InvalidPoolSize));
    let mut c = config_of(2);
    c.voice_style_cache_size = 0;
    assert_eq!(c.validate(), Err(PoolError::InvalidCacheCapacity));
    assert_eq!(config_of(2).validate(), Ok(()));
}

#[test]
fn warm_pool_admits_exactly_its_size() {
    let mut p = warm_pool(3);
    assert_eq!(p.total_engines(), 3);
    assert_eq!(p.add_engine(), None);
    assert_eq!(p.checkout(), CheckoutStep::Granted(0));
    assert_eq!(p.checkout(), CheckoutStep::Granted(1));
    assert_eq!(p.checkout(), CheckoutStep::Granted(2));
    assert_eq!(p.available_permits(), 0);
    assert_eq!(p.checkout(), CheckoutStep::Wait);
    assert_eq!(p.available_permits(), 0);
    assert_eq!(p.total_checkouts(), 3);
    assert!(p.release(1));
    assert_eq!(p.checkout(), CheckoutStep::Granted(1));
}

#[test]
fn release_returns_one_permit_once() {
    let mut p = warm_pool(2);
    assert_eq!(p.checkout(), CheckoutStep::Granted(0));
    assert_eq!(p.available_permits(), 1);
    assert!(p.release(0));
    assert_eq!(p.available_permits(), 2);
    assert!(!p.release(0));
    assert_eq!(p.available_permits(), 2);
    assert!(!p.release(7));
    assert!(!p.is_busy(0));
}

#[test]
fn lazy_construction_and_failure_return_the_permit() {
    let mut p = PoolState::new(&config_of(2)).unwrap();
    assert_eq!(p.checkout(), CheckoutStep::Construct);
    assert_eq!(p.pending_constructions(), 1);
    assert_eq!(p.available_permits(), 1);
    assert_eq!(p.finish_construct(false), Err(PoolError::EngineLoad));
    assert_eq!(p.available_permits(), 2);
    assert_eq!(p.total_engines(), 0);
    assert_eq!(p.total_checkouts(), 0);
    assert_eq!(p.checkout(), CheckoutStep::Construct);
    assert_eq!(p.finish_construct(true), Ok(0));
    assert!(p.is_busy(0));
    assert_eq!(p.total_engines(), 1);
    assert_eq!(p.total_checkouts(), 1);
    assert_eq!(p.engine_id(0).map(|id| id.len()), Some(36));
    assert_eq!(p.engine_id(1), None);
    assert!(p.release(0));
    assert_eq!(p.checkout(), CheckoutStep::Granted(0));
}

#[test]
fn two_concurrent_requests_on_warm_pool_of_two() {
    let mut p = warm_pool(2);
    let a = p.checkout();
    let b = p.checkout();
    assert_eq!(a, CheckoutStep::Granted(0));
    assert_eq!(b, CheckoutStep::Granted(1));
    assert_eq!(p.total_engines(), 2);
    assert!(p.release(0));
    assert!(p.release(1));
    assert_eq!(p.total_engines(), 2);
    assert_eq!(p.available_permits(), 2);
}

#[test]
fn second_checkout_times_out_while_engine_held() {
    let mut p = warm_pool(1);
    assert_eq!(p.checkout(), CheckoutStep::Granted(0));
    assert_eq!(p.checkout(), CheckoutStep::Wait);
    assert_eq!(checkout_wait_budget(0, 50), Ok(50));
    assert_eq!(checkout_wait_budget(30, 50), Ok(20));
    assert_eq!(checkout_wait_budget(50, 50), Err(PoolError::Timeout));
    assert_eq!(checkout_wait_budget(60, 50), Err(PoolError::Timeout));
    assert_eq!(p.available_permits(), 0);
    assert_eq!(p.total_checkouts(), 1);
}

#[test]
fn shutdown_closes_the_pool() {
    let mut p = warm_pool(2);
    assert_eq!(p.checkout(), CheckoutStep::Granted(0));
    assert_eq!(p.shutdown(), 2);
    assert_eq!(p.total_engines(), 0);
    assert_eq!(p.checkout(), CheckoutStep::Closed);
    assert!(!p.release(0));
    assert_eq!(p.add_engine(), None);
    assert_eq!(p.available_permits(), 2);
}

#[test]
fn construction_reported_after_shutdown_fails_closed() {
    let mut p = PoolState::new(&config_of(1)).unwrap();
    assert_eq!(p.checkout(), CheckoutStep::Construct);
    assert_eq!(p.shutdown(), 0);
    assert_eq!(p.available_permits(), 0);
    assert_eq!(p.finish_construct(true), Err(PoolError::Closed));
    assert_eq!(p.available_permits(), 1);
}
