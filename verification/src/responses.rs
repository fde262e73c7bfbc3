//! Pure response logic of the service's HTTP endpoints: what status code,
//! content type and body each endpoint serves, as a function of plain values.
//! The surrounding HTTP server performs the I/O and hands the results out.

use vstd::prelude::*;
use vstd::string::StringExecFns;
use crate::metrics::MetricsError;

verus! {

/// Status code and body of the liveness endpoint: always 200 "OK".
pub fn health_response() -> (r: (u16, String))
    ensures
        r.0 == 200,
        r.1@ == "OK"@,
{
    (200, "OK".to_owned())
}

/// Status code and body of the readiness endpoint, given the outcome of the
/// database health check: 200 "Ready" when the database is healthy,
/// 503 "Not Ready" otherwise.
pub fn ready_response(db_healthy: bool) -> (r: (u16, String))
    ensures
        db_healthy ==> r.0 == 200 && r.1@ == "Ready"@,
        !db_healthy ==> r.0 == 503 && r.1@ == "Not Ready"@,
{
    if db_healthy {
        (200, "Ready".to_owned())
    } else {
        (503, "Not Ready".to_owned())
    }
}

/// The JSON body of the status endpoint for a given database state and
/// service version.
pub open spec fn spec_status_body(db_healthy: bool, version: Seq<char>) -> Seq<char> {
    "{\"status\":\"operational\",\"database\":\""@ + (if db_healthy {
        "healthy"@
    } else {
        "unhealthy"@
    }) + "\",\"version\":\""@ + version + "\"}"@
}

/// True when a character may stand unescaped inside a JSON string literal.
pub open spec fn json_plain_char(c: char) -> bool {
    c != '"' && c != '\\' && c as u32 >= 0x20
}

/// Body of the status endpoint: a JSON object with the operational status,
/// the database state and the service version. The version is expected to be
/// a plain version string (it is embedded verbatim, without JSON escaping).
pub fn status_body(db_healthy: bool, version: &str) -> (r: String)
    requires
        forall|i: int| 0 <= i < version@.len() ==> json_plain_char(#[trigger] version@[i]),
    ensures
        r@ == spec_status_body(db_healthy, version@),
{
    let mut r = "{\"status\":\"operational\",\"database\":\"".to_owned();
    if db_healthy {
        r.append("healthy");
    } else {
        r.append("unhealthy");
    }
    r.append("\",\"version\":\"");
    r.append(version);
    r.append("\"}");
    r
}

/// Status code, content type and body of the status endpoint.
pub fn status_response(db_healthy: bool, version: &str) -> (r: (u16, String, String))
    requires
        forall|i: int| 0 <= i < version@.len() ==> json_plain_char(#[trigger] version@[i]),
    ensures
        r.0 == 200,
        r.1@ == "application/json"@,
        r.2@ == spec_status_body(db_healthy, version@),
{
    (200, "application/json".to_owned(), status_body(db_healthy, version))
}

/// Status code, content type and body of the exposition endpoint, given the
/// outcome of taking the registry snapshot: the snapshot itself with the
/// Prometheus text-format content type on success, 500 with a short
/// diagnostic otherwise.
pub fn metrics_response(gathered: Result<String, MetricsError>) -> (r: (u16, String, String))
    ensures
        gathered matches Ok(body) ==> r.0 == 200 && r.1@ == "text/plain; version=0.0.4"@ && r.2@
            == body@,
        gathered is Err ==> r.0 == 500 && r.1@ == "text/plain; charset=utf-8"@ && r.2@
            == "Failed to gather metrics"@,
{
    match gathered {
        Ok(body) => (200, "text/plain; version=0.0.4".to_owned(), body),
        Err(_) => (500, "text/plain; charset=utf-8".to_owned(), "Failed to gather metrics".to_owned()),
    }
}

} // verus!
