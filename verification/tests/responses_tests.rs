use telemetrywatch::metrics::MetricsError;
use telemetrywatch::responses::{
    health_response, metrics_response, ready_response, status_body, status_response,
};

#[test]
fn health_is_ok() {
    let (code, body) = health_response();
    assert_eq!(code, 200);
    assert_eq!(body, "OK");
}

#[test]
fn ready_reflects_database_health() {
    let (code, body) = ready_response(true);
    assert_eq!(code, 200);
    assert_eq!(body, "Ready");

    let (code, body) = ready_response(false);
    assert_eq!(code, 503);
    assert_eq!(body, "Not Ready");
}

#[test]
fn status_body_is_exact() {
    assert_eq!(
        status_body(true, "1.2.3"),
        "{\"status\":\"operational\",\"database\":\"healthy\",\"version\":\"1.2.3\"}"
    );
    assert_eq!(
        status_body(false, "1.2.3"),
        "{\"status\":\"operational\",\"database\":\"unhealthy\",\"version\":\"1.2.3\"}"
    );
}

#[test]
fn status_body_is_valid_json() {
    let body = status_body(true, "0.1.0");
    let value: serde_json::Value = serde_json::from_str(&body).unwrap();
    assert_eq!(value["status"], "operational");
    assert_eq!(value["database"], "healthy");
    assert_eq!(value["version"], "0.1.0");
}

#[test]
fn status_response_is_json() {
    let (code, content_type, body) = status_response(false, "9.9.9");
    assert_eq!(code, 200);
    assert_eq!(content_type, "application/json");
    let value: serde_json::Value = serde_json::from_str(&body).unwrap();
    assert_eq!(value["database"], "unhealthy");
}

#[test]
fn metrics_response_on_success() {
    let (code, content_type, body) = metrics_response(Ok("snapshot".to_string()));
    assert_eq!(code, 200);
    assert_eq!(content_type, "text/plain; version=0.0.4");
    assert_eq!(body, "snapshot");
}

#[test]
fn metrics_response_on_failure() {
    let (code, content_type, body) = metrics_response(Err(MetricsError::SnapshotEncoding));
    assert_eq!(code, 500);
    assert_eq!(content_type, "text/plain; charset=utf-8");
    assert_eq!(body, "Failed to gather metrics");
}

#[test]
fn error_descriptions() {
    assert_eq!(
        MetricsError::RegistryConstruction.describe(),
        "failed to build or register a metric"
    );
    assert_eq!(
        MetricsError::SnapshotEncoding.describe(),
        "failed to encode the metrics snapshot"
    );
}
