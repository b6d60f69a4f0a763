use dynamo_llm::storage::config::{
    is_yes, read_number, select_backend, StorageBackend, StorageConfig,
};
use dynamo_llm::time::Duration;

#[test]
fn test_default_config() {
    let config = StorageConfig::default();
    assert_eq!(config.default_ttl, Duration::from_secs(24 * 60 * 60));
    assert!(!config.store_by_default);
    assert_eq!(config.backend, StorageBackend::InMemory);
}

#[test]
fn test_validate_ttl() {
    let config = StorageConfig {
        default_ttl: Duration::from_secs(3600),
        max_ttl: Duration::from_secs(86400),
        ..Default::default()
    };

    // None returns default
    assert_eq!(config.validate_ttl(None), Duration::from_secs(3600));

    // Within range returns as-is
    assert_eq!(
        config.validate_ttl(Some(Duration::from_secs(7200))),
        Duration::from_secs(7200)
    );

    // Exceeds max returns max
    assert_eq!(
        config.validate_ttl(Some(Duration::from_secs(100000))),
        Duration::from_secs(86400)
    );
}

#[test]
fn a_default_above_the_longest_is_cut() {
    let config = StorageConfig {
        default_ttl: Duration::from_secs(10),
        max_ttl: Duration::from_secs(5),
        ..Default::default()
    };
    assert_eq!(config.validate_ttl(None), Duration::from_secs(5));
}

#[test]
fn settings_that_are_missing_leave_the_defaults() {
    let config = StorageConfig::from_values(None, None, None, None, None, None);
    assert_eq!(config, StorageConfig::default());
    assert_eq!(config.max_responses_per_session, 1000);
    assert_eq!(config.max_ttl, Duration::from_secs(7 * 24 * 60 * 60));
}

#[test]
fn settings_are_read() {
    let config = StorageConfig::from_values(
        Some("60"),
        Some("+120"),
        Some("TRUE"),
        Some("0"),
        Some("Redis"),
        Some("redis://elsewhere:1"),
    );
    assert_eq!(config.default_ttl, Duration::from_secs(60));
    assert_eq!(config.max_ttl, Duration::from_secs(120));
    assert!(config.store_by_default);
    assert_eq!(config.max_responses_per_session, 0);
    assert_eq!(
        config.backend,
        StorageBackend::Redis {
            url: "redis://elsewhere:1".to_string()
        }
    );
}

#[test]
fn settings_that_make_no_sense_leave_the_defaults() {
    let config = StorageConfig::from_values(
        Some("-1"),
        Some("18446744073709551616"),
        Some("on"),
        Some("1 "),
        Some("REDI"),
        None,
    );
    assert_eq!(config, StorageConfig::default());
    let config = StorageConfig::from_values(None, None, Some("1"), None, Some("rEDIS"), None);
    assert!(config.store_by_default);
    assert_eq!(
        config.backend,
        StorageBackend::Redis {
            url: "redis://localhost:6379".to_string()
        }
    );
}

#[test]
fn parts_of_the_settings() {
    assert_eq!(read_number(Some("18446744073709551615"), u64::MAX, 3), u64::MAX);
    assert_eq!(read_number(Some("256"), 255, 3), 3);
    assert_eq!(read_number(Some(""), 255, 3), 3);
    assert_eq!(read_number(Some("+"), 255, 3), 3);
    assert!(is_yes("True", "true"));
    assert!(is_yes("1", "1"));
    assert!(!is_yes("yes", "yes"));
    assert_eq!(select_backend("memory", Some("x")), StorageBackend::InMemory);
}
