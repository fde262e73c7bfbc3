use telemetrywatch::metrics::{status_label_string, Metrics};

/// The value of the first sample line for `name` (no labels) in an
/// exposition body.
fn sample_value(body: &str, name: &str) -> Option<String> {
    for line in body.lines() {
        if let Some(rest) = line.strip_prefix(name) {
            if let Some(value) = rest.strip_prefix(' ') {
                return Some(value.to_string());
            }
        }
    }
    None
}

/// Whether the body holds a sample line for `name` carrying every one of
/// `labels`, with the given value.
fn has_labeled_sample(body: &str, name: &str, labels: &[&str], value: &str) -> bool {
    for line in body.lines() {
        if line.starts_with(name)
            && line.contains('{')
            && labels.iter().all(|l| line.contains(l))
            && line.ends_with(&format!(" {}", value))
        {
            return true;
        }
    }
    false
}

#[test]
fn snapshot_names_every_instrument() {
    let mut metrics = Metrics::new().unwrap();
    // a labeled family appears in the exposition once it has a child
    metrics.observe_request("GET", "/health", 200);
    let body = metrics.gather().unwrap();
    for name in [
        "http_requests_total",
        "http_request_duration_seconds",
        "active_connections",
        "database_queries_total",
        "database_query_duration_seconds",
    ] {
        assert!(body.contains(name), "snapshot misses {}: {}", name, body);
    }
}

#[test]
fn health_request_is_counted_once() {
    let mut metrics = Metrics::new().unwrap();
    metrics.observe_request("GET", "/health", 200);
    let body = metrics.gather().unwrap();
    assert!(has_labeled_sample(
        &body,
        "http_requests_total",
        &["method=\"GET\"", "endpoint=\"/health\"", "status=\"200\""],
        "1"
    ), "{}", body);
    assert!(has_labeled_sample(
        &body,
        "http_request_duration_seconds_count",
        &["method=\"GET\"", "endpoint=\"/health\""],
        "1"
    ), "{}", body);
    assert_eq!(sample_value(&body, "active_connections").unwrap(), "0");
}

#[test]
fn api_request_is_counted_under_normalized_endpoint() {
    let mut metrics = Metrics::new().unwrap();
    metrics.observe_request("GET", "/api/v1/users/12345", 404);
    let body = metrics.gather().unwrap();
    assert!(has_labeled_sample(
        &body,
        "http_requests_total",
        &["method=\"GET\"", "endpoint=\"/api/v1/users/:id\"", "status=\"404\""],
        "1"
    ), "{}", body);
    assert!(!body.contains("12345"), "raw identifier leaked into labels: {}", body);
}

#[test]
fn repeated_requests_accumulate() {
    let mut metrics = Metrics::new().unwrap();
    metrics.observe_request("GET", "/health", 200);
    metrics.observe_request("GET", "/health", 200);
    metrics.observe_request("POST", "/health", 200);
    let body = metrics.gather().unwrap();
    assert!(has_labeled_sample(
        &body,
        "http_requests_total",
        &["method=\"GET\"", "endpoint=\"/health\"", "status=\"200\""],
        "2"
    ), "{}", body);
    assert!(has_labeled_sample(
        &body,
        "http_requests_total",
        &["method=\"POST\"", "endpoint=\"/health\"", "status=\"200\""],
        "1"
    ), "{}", body);
}

#[test]
fn gauge_tracks_requests_in_flight() {
    let mut metrics = Metrics::new().unwrap();
    let body = metrics.gather().unwrap();
    assert_eq!(sample_value(&body, "active_connections").unwrap(), "0");

    let first = metrics.on_request_start("GET", "/health");
    let second = metrics.on_request_start("GET", "/api/v1/status");
    let body = metrics.gather().unwrap();
    assert_eq!(sample_value(&body, "active_connections").unwrap(), "2");

    metrics.on_request_end(first, 200);
    let body = metrics.gather().unwrap();
    assert_eq!(sample_value(&body, "active_connections").unwrap(), "1");

    metrics.on_request_end(second, 200);
    let body = metrics.gather().unwrap();
    assert_eq!(sample_value(&body, "active_connections").unwrap(), "0");
}

#[test]
fn gauge_peak_matches_maximum_overlap() {
    let mut metrics = Metrics::new().unwrap();
    let mut in_flight = Vec::new();
    for _ in 0..100 {
        in_flight.push(metrics.on_request_start("GET", "/api/v1/users/7"));
        let body = metrics.gather().unwrap();
        let value: u32 = sample_value(&body, "active_connections").unwrap().parse().unwrap();
        assert!(value <= 100);
    }
    let body = metrics.gather().unwrap();
    assert_eq!(sample_value(&body, "active_connections").unwrap(), "100");
    for obs in in_flight {
        metrics.on_request_end(obs, 200);
    }
    let body = metrics.gather().unwrap();
    assert_eq!(sample_value(&body, "active_connections").unwrap(), "0");
    assert!(has_labeled_sample(
        &body,
        "http_requests_total",
        &["method=\"GET\"", "endpoint=\"/api/v1/users/:id\"", "status=\"200\""],
        "100"
    ), "{}", body);
}

#[test]
fn colliding_label_concatenations_share_a_series() {
    // the exposition library keys a family's series by the concatenation of
    // the label values, so these two requests land on one series, which
    // keeps the labels it was first created with
    let mut metrics = Metrics::new().unwrap();
    metrics.observe_request("GET", "/x", 200);
    metrics.observe_request("GE", "T/x", 200);
    let body = metrics.gather().unwrap();
    assert!(has_labeled_sample(
        &body,
        "http_requests_total",
        &["method=\"GET\"", "endpoint=\"/x\"", "status=\"200\""],
        "2"
    ), "{}", body);
    assert!(!body.contains("method=\"GE\""), "{}", body);
}

#[test]
fn snapshot_parses_as_exposition_text() {
    let mut metrics = Metrics::new().unwrap();
    metrics.observe_request("GET", "/metrics", 200);
    let body = metrics.gather().unwrap();
    for line in body.lines() {
        assert!(!line.is_empty());
        if line.starts_with('#') {
            assert!(line.starts_with("# HELP ") || line.starts_with("# TYPE "), "{}", line);
        } else {
            // every sample line is "name[{labels}] value"
            let space = line.rfind(' ').unwrap();
            let value = &line[space + 1..];
            assert!(value.parse::<f64>().is_ok(), "unparsable value in {}", line);
        }
    }
}

#[test]
fn status_labels_are_decimal() {
    assert_eq!(status_label_string(200), "200");
    assert_eq!(status_label_string(404), "404");
    assert_eq!(status_label_string(503), "503");
    assert_eq!(status_label_string(0), "0");
    assert_eq!(status_label_string(65535), "65535");
}
