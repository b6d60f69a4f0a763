use dynamo_llm::storage::redis_lock::{
    after_attempt, lock_key, lock_ttl_millis, new_lock_id, single_attempt, was_released,
    AttemptStep, DEFAULT_LOCK_TTL_MS, LOCK_RETRY_DELAY_MS, RELEASE_LOCK_SCRIPT,
};
use dynamo_llm::storage::session_lock::{
    is_no, AcquireStep, InMemorySessionLock, LockConfig, LockError,
};
use dynamo_llm::time::Duration;

const ZERO: u64 = 0;

#[test]
fn test_acquire_and_release() {
    let mut lock = InMemorySessionLock::new();

    // Acquire lock
    let guard = match lock.acquire_step(
        "test:session",
        Duration::from_secs(ZERO),
        Duration::from_secs(1),
    ) {
        AcquireStep::Acquired(guard) => guard,
        other => panic!("unexpected {:?}", other),
    };

    assert!(lock.is_locked("test:session"));

    // Release
    lock.release(guard);

    // Should be unlocked now
    assert!(!lock.is_locked("test:session"));
}

#[test]
fn test_try_acquire_when_held() {
    let mut lock = InMemorySessionLock::new();

    // Acquire lock
    let _guard = lock.try_acquire("test:session").unwrap();

    // Try to acquire again - should fail
    let result = lock.try_acquire("test:session");
    assert!(matches!(result, Err(LockError::AlreadyHeld)));
}

#[test]
fn test_timeout() {
    let mut lock = InMemorySessionLock::new();

    // Acquire lock
    let _guard = lock.try_acquire("test:session").unwrap();

    // Try to acquire with short timeout - should timeout
    let timeout = Duration::from_millis(100);
    assert!(matches!(
        lock.acquire_step("test:session", Duration::from_millis(99), timeout),
        AcquireStep::Wait
    ));
    let result = lock.acquire_step("test:session", Duration::from_millis(100), timeout);

    assert!(matches!(
        result,
        AcquireStep::Failed(LockError::Timeout(_))
    ));
}

#[test]
fn test_different_keys_independent() {
    let mut lock = InMemorySessionLock::new();

    // Acquire lock on key1
    let _guard1 = lock.try_acquire("tenant:session1").unwrap();

    // Should be able to acquire lock on key2
    let guard2 = lock.try_acquire("tenant:session2");

    assert!(guard2.is_ok());
    assert_eq!(guard2.unwrap().key(), "tenant:session2");
}

#[test]
fn test_concurrent_acquisition() {
    let mut lock = InMemorySessionLock::default();
    let key = "test:concurrent";
    let timeout = Duration::from_secs(5);

    // Tasks that take turns: each tries until it holds the lock, holds it for a
    // few rounds, and releases it.
    let mut acquired = Vec::new();
    let mut guards = vec![None, None, None, None, None];
    let mut held_for = vec![0; 5];
    for round in 0..100u64 {
        for i in 0..5 {
            if let Some(guard) = guards[i].take() {
                held_for[i] += 1;
                if held_for[i] < 3 {
                    guards[i] = Some(guard);
                } else {
                    lock.release(guard);
                }
            } else if !acquired.contains(&i) {
                let waited = Duration::from_millis(round * 10);
                match lock.acquire_step(key, waited, timeout) {
                    AcquireStep::Acquired(guard) => {
                        acquired.push(i);
                        guards[i] = Some(guard);
                    }
                    AcquireStep::Wait => {}
                    AcquireStep::Failed(e) => panic!("unexpected {:?}", e),
                }
            }
            assert!(guards.iter().filter(|g| g.is_some()).count() <= 1);
        }
    }

    // All 5 tasks should have acquired the lock
    assert_eq!(acquired.len(), 5);
    assert!(!lock.is_locked(key));
}

#[test]
fn test_config_from_env() {
    // Test default config
    let config = LockConfig::default();
    assert_eq!(config.default_timeout, Duration::from_secs(30));
    assert!(config.require_lock);

    // Test config without settings
    let config = LockConfig::from_values(None, None);
    assert!(config.default_timeout.as_secs() > 0);
}

#[test]
fn lock_settings_are_read() {
    let config = LockConfig::from_values(Some("5"), Some("FALSE"));
    assert_eq!(config.default_timeout, Duration::from_secs(5));
    assert!(!config.require_lock);
    assert!(!LockConfig::from_values(Some("x"), Some("0")).require_lock);
    let config = LockConfig::from_values(Some("x"), Some("no"));
    assert_eq!(config.default_timeout, Duration::from_secs(30));
    assert!(config.require_lock);
    assert!(is_no("False", "false"));
    assert!(!is_no("no", "no"));
}

#[test]
fn releasing_frees_one_lock_only() {
    let mut lock = InMemorySessionLock::new();
    let a = lock.try_acquire("a").unwrap();
    let b = lock.try_acquire("b").unwrap();
    let _c = lock.try_acquire("c").unwrap();
    lock.release(b);
    assert!(lock.is_locked("a"));
    assert!(!lock.is_locked("b"));
    assert!(lock.is_locked("c"));
    lock.release(a);
    assert!(lock.try_acquire("a").is_ok());
    // A free lock is taken even where no time is left.
    assert!(matches!(
        lock.acquire_step("b", Duration::from_secs(9), Duration::from_secs(0)),
        AcquireStep::Acquired(_)
    ));
}

#[test]
fn attempts_on_a_lock_in_redis() {
    let timeout = Duration::from_secs(1);
    let zero = Duration::from_secs(0);
    assert_eq!(
        after_attempt(Some("id".to_string()), timeout, timeout),
        AttemptStep::Acquired("id".to_string())
    );
    assert_eq!(
        after_attempt(None, Duration::from_millis(999), timeout),
        AttemptStep::RetryAfter(Duration::from_millis(50))
    );
    assert_eq!(
        after_attempt(None, timeout, timeout),
        AttemptStep::Failed(LockError::Timeout(timeout))
    );
    assert_eq!(
        after_attempt(None, zero, zero),
        AttemptStep::Failed(LockError::Timeout(zero))
    );
    assert_eq!(single_attempt(Some("id".to_string())), Ok("id".to_string()));
    assert_eq!(single_attempt(None), Err(LockError::AlreadyHeld));
    assert!(was_released(1));
    assert!(!was_released(0));
    assert!(!was_released(2));
}

#[test]
fn parts_of_a_lock_in_redis() {
    assert_eq!(lock_key("tenant:session"), "lock:tenant:session");
    assert_eq!(new_lock_id().len(), 36);
    assert_ne!(new_lock_id(), new_lock_id());
    assert_eq!(lock_ttl_millis(Duration::from_millis(500)), 500);
    assert_eq!(lock_ttl_millis(Duration::from_secs(2)), 2000);
    assert_eq!(
        lock_ttl_millis(Duration::from_secs(u64::MAX)),
        ((u64::MAX as u128) * 1000) as u64
    );
    assert_eq!((DEFAULT_LOCK_TTL_MS, LOCK_RETRY_DELAY_MS), (30_000, 50));
    assert!(RELEASE_LOCK_SCRIPT.contains("redis.call(\"del\", KEYS[1])"));
}
