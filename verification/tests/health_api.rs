use attuned::api::{ErrorResponse, HttpError, SourceInput};
use attuned::health::{ComponentHealth, HealthState, HealthStatus};
use attuned::qdrant::{QdrantStore, QdrantStoreConfig};
use attuned::snapshot::Source;
use attuned::store::StoreError;

#[test]
fn test_health_all_components_healthy() {
    let checks = vec![
        ComponentHealth::healthy("memory_store"),
        ComponentHealth::healthy("translator"),
    ];
    let status = HealthStatus::from_checks(checks, 12);
    assert_eq!(status.status, HealthState::Healthy);
    assert_eq!(status.uptime_secs, 12);
    assert_eq!(status.checks.len(), 2);
}

#[test]
fn test_health_mixed_components_degraded() {
    let checks = vec![
        ComponentHealth::healthy("memory_store"),
        ComponentHealth::unhealthy("backend", "connection refused"),
    ];
    let status = HealthStatus::from_checks(checks, 0);
    assert_eq!(status.status, HealthState::Degraded);
}

#[test]
fn test_health_no_component_healthy_is_unhealthy() {
    let checks = vec![ComponentHealth::unhealthy("backend", "down")];
    let status = HealthStatus::from_checks(checks, 0);
    assert_eq!(status.status, HealthState::Unhealthy);
}

#[test]
fn test_health_no_checks_is_healthy() {
    let status = HealthStatus::from_checks(Vec::new(), 7);
    assert_eq!(status.status, HealthState::Healthy);
}

#[test]
fn test_error_response_shape() {
    let body = ErrorResponse::new("VALIDATION_ERROR", "user_id must not be empty");
    assert_eq!(body.error.code, "VALIDATION_ERROR");
    assert_eq!(body.error.message, "user_id must not be empty");
    assert!(body.error.request_id.is_none());
}

#[test]
fn test_source_input_conversion() {
    assert_eq!(SourceInput::default(), SourceInput::SelfReport);
    assert_eq!(Source::from(SourceInput::SelfReport), Source::SelfReport);
    assert_eq!(Source::from(SourceInput::Inferred), Source::Inferred);
    assert_eq!(Source::from(SourceInput::Mixed), Source::Mixed);
}

#[test]
fn test_http_error_wraps_store_error() {
    let e = HttpError::from(StoreError::internal("lost a shard"));
    match e {
        HttpError::Store(StoreError::Internal { message }) => {
            assert_eq!(message, "lost a shard")
        }
        other => panic!("expected wrapped store error, got {:?}", other),
    }
}

#[test]
fn test_qdrant_config_default() {
    let config = QdrantStoreConfig::default();
    assert_eq!(config.url, "http://localhost:6334");
    assert_eq!(config.collection_name, "attuned_state");
    assert!(config.api_key.is_none());
    assert!(!config.enable_history);
    assert!(config.history_retention_days.is_none());
    assert_eq!(config.connect_timeout_secs, 10);
    assert_eq!(config.request_timeout_secs, 30);
}

#[test]
fn test_qdrant_store_opens_and_answers() {
    let store = QdrantStore::new(QdrantStoreConfig::default()).unwrap();
    assert_eq!(store.health_check().unwrap(), true);
}
