use telemetrywatch::normalize::normalize_path;

#[test]
fn numeric_id_is_normalized() {
    assert_eq!(normalize_path("/api/v1/users/12345"), "/api/v1/users/:id");
}

#[test]
fn long_token_is_normalized() {
    // eleven characters, longer than ten
    assert_eq!(normalize_path("/api/v1/users/abcdefghijk"), "/api/v1/users/:id");
}

#[test]
fn short_word_is_unchanged() {
    assert_eq!(normalize_path("/api/v1/users/bob"), "/api/v1/users/bob");
}

#[test]
fn non_api_paths_are_unchanged() {
    assert_eq!(normalize_path("/health"), "/health");
    assert_eq!(normalize_path("/metrics"), "/metrics");
    assert_eq!(normalize_path("/other/path/with/12345"), "/other/path/with/12345");
    assert_eq!(normalize_path(""), "");
    assert_eq!(normalize_path("api/v1/users/12345"), "api/v1/users/12345");
}

#[test]
fn short_api_paths_are_unchanged() {
    // three segments or fewer: "", "api", ...
    assert_eq!(normalize_path("/api/"), "/api/");
    assert_eq!(normalize_path("/api/v1"), "/api/v1");
}

#[test]
fn trailing_slash_is_unchanged() {
    // the final segment is empty: not numeric, not long
    assert_eq!(normalize_path("/api/v1/users/"), "/api/v1/users/");
}

#[test]
fn zero_is_normalized() {
    assert_eq!(normalize_path("/api/v1/users/0"), "/api/v1/users/:id");
}

#[test]
fn u64_max_is_normalized() {
    assert_eq!(
        normalize_path("/api/v1/users/18446744073709551615"),
        "/api/v1/users/:id"
    );
}

#[test]
fn overflowing_numeral_is_normalized_by_length() {
    // does not fit a u64, but its twenty digits trip the length rule
    assert_eq!(
        normalize_path("/api/v1/users/99999999999999999999"),
        "/api/v1/users/:id"
    );
}

#[test]
fn plus_signed_numeral_is_normalized() {
    // "+123" parses as an unsigned 64-bit integer
    assert_eq!(normalize_path("/api/v1/users/+123"), "/api/v1/users/:id");
}

#[test]
fn sign_alone_is_unchanged() {
    assert_eq!(normalize_path("/api/v1/users/+"), "/api/v1/users/+");
}

#[test]
fn only_final_segment_is_inspected() {
    assert_eq!(normalize_path("/api/v1/users/123/posts"), "/api/v1/users/123/posts");
    assert_eq!(
        normalize_path("/api/v1/users/123/posts/456"),
        "/api/v1/users/123/posts/:id"
    );
}

#[test]
fn normalization_is_idempotent_on_samples() {
    let samples = [
        "/api/v1/users/12345",
        "/api/v1/users/abcdefghijk",
        "/api/v1/users/bob",
        "/api/v1/users/",
        "/api/",
        "/health",
        "",
        "/api/v1/users/123/posts/456",
    ];
    for p in samples {
        let once = normalize_path(p);
        let twice = normalize_path(&once);
        assert_eq!(twice, once);
    }
}
