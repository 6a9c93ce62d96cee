use attuned::snapshot::{Source, StateSnapshot};
use attuned::traits::StateStore;
use attuned::store::{MemoryStore, MemoryStoreConfig, StoreError};

fn test_snapshot(user_id: &str) -> StateSnapshot {
    StateSnapshot::builder()
        .user_id(user_id)
        .source(Source::SelfReport)
        .axis("warmth", 700)
        .build()
        .unwrap()
}

#[test]
fn test_upsert_and_get() {
    let mut store = MemoryStore::default();
    let snapshot = test_snapshot("user_1");

    store.upsert_latest(snapshot.clone()).unwrap();

    let retrieved = store.get_latest("user_1").unwrap();
    assert!(retrieved.is_some());
    assert_eq!(retrieved.unwrap().user_id, "user_1");
}

#[test]
fn test_get_nonexistent() {
    let store = MemoryStore::default();
    let result = store.get_latest("nonexistent").unwrap();
    assert!(result.is_none());
}

#[test]
fn test_delete() {
    let mut store = MemoryStore::default();
    store.upsert_latest(test_snapshot("user_1")).unwrap();

    store.delete("user_1").unwrap();

    assert!(store.get_latest("user_1").unwrap().is_none());
}

#[test]
fn test_history() {
    let config = MemoryStoreConfig {
        enable_history: true,
        max_history_per_user: 5,
    };
    let mut store = MemoryStore::new(config);

    for i in 0..3u32 {
        let snapshot = StateSnapshot::builder()
            .user_id("user_1")
            .source(Source::SelfReport)
            .axis("warmth", i * 100)
            .build()
            .unwrap();
        store.upsert_latest(snapshot).unwrap();
    }

    let history = store.get_history("user_1", 10).unwrap();
    assert_eq!(history.len(), 3);
}

#[test]
fn test_history_limit() {
    let config = MemoryStoreConfig {
        enable_history: true,
        max_history_per_user: 3,
    };
    let mut store = MemoryStore::new(config);

    for i in 0..5u32 {
        let snapshot = StateSnapshot::builder()
            .user_id("user_1")
            .source(Source::SelfReport)
            .axis("warmth", i * 100)
            .build()
            .unwrap();
        store.upsert_latest(snapshot).unwrap();
    }

    let history = store.get_history("user_1", 10).unwrap();
    assert_eq!(history.len(), 3); // Limited to max
}

#[test]
fn test_concurrent_access() {
    let mut store = MemoryStore::default();

    for i in 0..100 {
        let snapshot = test_snapshot(&format!("user_{}", i));
        store.upsert_latest(snapshot).unwrap();
    }

    assert_eq!(store.len(), 100);
}

#[test]
fn test_read_after_write_returns_equal_snapshot() {
    let mut store = MemoryStore::default();
    let snapshot = StateSnapshot::builder()
        .user_id("reader")
        .source(Source::Mixed)
        .confidence(850)
        .axis("warmth", 700)
        .axis("humor", 250)
        .build()
        .unwrap();
    store.upsert_latest(snapshot.clone()).unwrap();

    let back = store.get_latest("reader").unwrap().unwrap();
    assert_eq!(back.user_id, snapshot.user_id);
    assert_eq!(back.source, snapshot.source);
    assert_eq!(back.confidence_milli, snapshot.confidence_milli);
    assert_eq!(back.updated_at_unix_ms, snapshot.updated_at_unix_ms);
    assert_eq!(back.axes.len(), snapshot.axes.len());
    for (a, b) in back.axes.iter().zip(snapshot.axes.iter()) {
        assert_eq!(a.name, b.name);
        assert_eq!(a.value_milli, b.value_milli);
    }
}

#[test]
fn test_delete_is_idempotent() {
    let mut store = MemoryStore::default();
    store.upsert_latest(test_snapshot("gone")).unwrap();

    assert!(store.delete("gone").is_ok());
    assert!(store.delete("gone").is_ok());
    assert!(store.delete("never_seen").is_ok());
    assert!(store.get_latest("gone").unwrap().is_none());
}

#[test]
fn test_history_keeps_newest_most_recent_first() {
    let config = MemoryStoreConfig {
        enable_history: true,
        max_history_per_user: 3,
    };
    let mut store = MemoryStore::new(config);

    for i in 0..5u32 {
        let snapshot = StateSnapshot::builder()
            .user_id("user_1")
            .source(Source::SelfReport)
            .axis("warmth", i * 100)
            .build()
            .unwrap();
        store.upsert_latest(snapshot).unwrap();
    }

    let history = store.get_history("user_1", 10).unwrap();
    let values: Vec<u32> = history.iter().map(|s| s.axes[0].value_milli).collect();
    assert_eq!(values, vec![400, 300, 200]);
    assert!(!values.contains(&0));
    assert!(!values.contains(&100));
}

#[test]
fn test_history_disabled_returns_empty() {
    let mut store = MemoryStore::default();
    store.upsert_latest(test_snapshot("user_1")).unwrap();
    assert!(store.get_history("user_1", 10).unwrap().is_empty());
}

#[test]
fn test_history_limit_truncates_result() {
    let config = MemoryStoreConfig {
        enable_history: true,
        max_history_per_user: 10,
    };
    let mut store = MemoryStore::new(config);
    for i in 0..4u32 {
        let snapshot = StateSnapshot::builder()
            .user_id("user_1")
            .source(Source::SelfReport)
            .axis("warmth", i * 100)
            .build()
            .unwrap();
        store.upsert_latest(snapshot).unwrap();
    }
    let history = store.get_history("user_1", 2).unwrap();
    assert_eq!(history.len(), 2);
    assert_eq!(history[0].axes[0].value_milli, 300);
    assert_eq!(history[1].axes[0].value_milli, 200);
}

#[test]
fn test_invalid_snapshot_leaves_store_untouched() {
    let config = MemoryStoreConfig {
        enable_history: true,
        max_history_per_user: 5,
    };
    let mut store = MemoryStore::new(config);
    let invalid = StateSnapshot {
        user_id: String::new(),
        source: Source::SelfReport,
        confidence_milli: 1000,
        axes: Vec::new(),
        updated_at_unix_ms: 0,
    };

    let result = store.upsert_latest(invalid);
    assert!(matches!(result, Err(StoreError::Validation(_))));
    assert_eq!(store.len(), 0);
    assert!(store.is_empty());
    assert!(store.get_history("", 10).unwrap().is_empty());
}

#[test]
fn test_clear_empties_the_store() {
    let mut store = MemoryStore::default();
    store.upsert_latest(test_snapshot("a")).unwrap();
    store.upsert_latest(test_snapshot("b")).unwrap();
    assert_eq!(store.len(), 2);
    assert!(!store.is_empty());

    store.clear();
    assert_eq!(store.len(), 0);
    assert!(store.is_empty());
}

#[test]
fn test_health_check_reports_ready() {
    let store = MemoryStore::default();
    assert_eq!(store.health_check().unwrap(), true);
}

#[test]
fn test_store_error_constructors() {
    match StoreError::internal("broken index") {
        StoreError::Internal { message } => assert_eq!(message, "broken index"),
        _ => panic!("wrong variant"),
    }
    match StoreError::connection("backend unreachable") {
        StoreError::Connection { message } => assert_eq!(message, "backend unreachable"),
        _ => panic!("wrong variant"),
    }
}

#[test]
fn test_memory_store_config_default() {
    let config = MemoryStoreConfig::default();
    assert!(!config.enable_history);
    assert_eq!(config.max_history_per_user, 100);
}

#[test]
fn test_state_store_trait_dispatch() {
    let mut store = MemoryStore::default();
    StateStore::upsert_latest(&mut store, test_snapshot("via_trait")).unwrap();
    assert!(StateStore::get_latest(&store, "via_trait").unwrap().is_some());
    StateStore::delete(&mut store, "via_trait").unwrap();
    assert!(StateStore::get_latest(&store, "via_trait").unwrap().is_none());
    assert!(StateStore::get_history(&store, "via_trait", 5).unwrap().is_empty());
    assert_eq!(StateStore::health_check(&store).unwrap(), true);
}
