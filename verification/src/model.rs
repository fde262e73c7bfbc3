//! A mathematical model of the metric registry's request-facing instruments:
//! the request counter, the duration-observation count, and the in-flight
//! gauge. The exposition library keys a family's series by the concatenation
//! of the label values, so the model does too; for label values shaped like
//! real HTTP requests the key determines the label tuple, which the
//! injectivity lemmas below establish.

use vstd::prelude::*;
use crate::normalize::spec_normalize;

verus! {

/// The observable label values of one completed request: HTTP method, raw
/// request path, and response status code.
pub struct RequestLabel {
    pub method: Seq<u8>,
    pub path: Seq<u8>,
    pub status: u16,
}

/// The decimal digits of `n`, as ASCII bytes.
pub open spec fn decimal_digits(n: nat) -> Seq<u8>
    decreases n,
{
    if n < 10 {
        seq![(48 + n) as u8]
    } else {
        decimal_digits(n / 10) + seq![(48 + n % 10) as u8]
    }
}

/// The status label of a response: its status code written in decimal.
pub open spec fn status_label(status: u16) -> Seq<u8> {
    decimal_digits(status as nat)
}

/// The series key of a request-counter entry: the label values (method,
/// endpoint, status) written back to back, exactly as the exposition
/// library keys a family's children.
pub open spec fn request_series_key(method: Seq<u8>, endpoint: Seq<u8>, status: u16) -> Seq<u8> {
    method + endpoint + status_label(status)
}

/// The series key of a duration-histogram entry: method then endpoint.
pub open spec fn duration_series_key(method: Seq<u8>, endpoint: Seq<u8>) -> Seq<u8> {
    method + endpoint
}

/// Count of one series, zero while the series has not been touched.
pub open spec fn series_count<K>(m: Map<K, nat>, k: K) -> nat {
    if m.dom().contains(k) {
        m[k]
    } else {
        0
    }
}

/// The map with the series at `k` one higher and every other series as it was.
pub open spec fn bump<K>(m: Map<K, nat>, k: K) -> Map<K, nat> {
    m.insert(k, series_count(m, k) + 1)
}

/// Mathematical state of the request-facing instruments.
#[verifier::ext_equal]
pub struct MetricsModel {
    /// `http_requests_total`: count per series key.
    pub requests: Map<Seq<u8>, nat>,
    /// `http_request_duration_seconds`: observation count per series key.
    pub durations: Map<Seq<u8>, nat>,
    /// `active_connections`: requests currently inside the wrapped handler.
    pub active: int,
}

impl MetricsModel {
    /// The state of a freshly built registry: no series, nothing in flight.
    pub open spec fn init() -> MetricsModel {
        MetricsModel { requests: Map::empty(), durations: Map::empty(), active: 0 }
    }

    /// Pre-phase of the middleware: a request entered the wrapped handler.
    pub open spec fn on_start(self) -> MetricsModel {
        MetricsModel { active: self.active + 1, ..self }
    }

    /// Post-phase of the middleware, with the endpoint label already
    /// normalized: one count at the request's own series, one observation at
    /// its duration series, one request fewer in flight.
    pub open spec fn on_end(self, method: Seq<u8>, endpoint: Seq<u8>, status: u16) -> MetricsModel
        recommends
            self.active >= 1,
    {
        MetricsModel {
            requests: bump(self.requests, request_series_key(method, endpoint, status)),
            durations: bump(self.durations, duration_series_key(method, endpoint)),
            active: self.active - 1,
        }
    }

    /// The full effect of one request on the registry: the pre-phase, the
    /// handler, and the post-phase with the normalized path as endpoint.
    pub open spec fn observe(self, r: RequestLabel) -> MetricsModel {
        self.on_start().on_end(r.method, spec_normalize(r.path), r.status)
    }

    /// The effect of a whole sequence of completed requests.
    pub open spec fn observe_all(self, rs: Seq<RequestLabel>) -> MetricsModel
        decreases rs.len(),
    {
        if rs.len() == 0 {
            self
        } else {
            self.observe(rs[0]).observe_all(rs.drop_first())
        }
    }
}

/// After any sequence of requests has completed, `active_connections` is back
/// at its initial value.
pub proof fn lemma_active_connections_restored(m: MetricsModel, rs: Seq<RequestLabel>)
    ensures
        m.observe_all(rs).active == m.active,
    decreases rs.len(),
{
    if rs.len() > 0 {
        lemma_active_connections_restored(m.observe(rs[0]), rs.drop_first());
    }
}

/// Each request raises `http_requests_total` by exactly one at its own
/// series — keyed by (method, normalized path, status) — and the
/// duration-observation count by exactly one at its own series; every other
/// series is untouched, and the gauge ends where it began.
pub proof fn lemma_request_counted_once(m: MetricsModel, r: RequestLabel)
    ensures
        series_count(
            m.observe(r).requests,
            request_series_key(r.method, spec_normalize(r.path), r.status),
        ) == series_count(
            m.requests,
            request_series_key(r.method, spec_normalize(r.path), r.status),
        ) + 1,
        series_count(
            m.observe(r).durations,
            duration_series_key(r.method, spec_normalize(r.path)),
        ) == series_count(m.durations, duration_series_key(r.method, spec_normalize(r.path))) + 1,
        forall|k: Seq<u8>|
            k != request_series_key(r.method, spec_normalize(r.path), r.status)
                ==> #[trigger] series_count(m.observe(r).requests, k) == series_count(
                m.requests,
                k,
            ),
        forall|k: Seq<u8>|
            k != duration_series_key(r.method, spec_normalize(r.path)) ==> #[trigger] series_count(
                m.observe(r).durations,
                k,
            ) == series_count(m.durations, k),
        m.observe(r).active == m.active,
{
}

/// Label values shaped like a real HTTP request: the method holds no slash,
/// the endpoint begins with one, and the status code has three digits.
pub open spec fn plain_request_labels(method: Seq<u8>, endpoint: Seq<u8>, status: u16) -> bool {
    (forall|i: int| 0 <= i < method.len() ==> method[i] != 47) && endpoint.len() > 0 && endpoint[0]
        == 47 && 100 <= status <= 999
}

/// A decimal numeral has at least one digit.
proof fn lemma_decimal_digits_nonempty(n: nat)
    ensures
        decimal_digits(n).len() >= 1,
{
}

/// A three-digit status code has a three-byte label.
proof fn lemma_status_label_len3(status: u16)
    requires
        100 <= status <= 999,
    ensures
        status_label(status).len() == 3,
{
    let n = status as nat;
    assert(decimal_digits(n / 10 / 10).len() == 1);
    assert(decimal_digits(n / 10).len() == 2);
}

/// Distinct numbers have distinct decimal numerals.
proof fn lemma_decimal_digits_injective(a: nat, b: nat)
    requires
        decimal_digits(a) == decimal_digits(b),
    ensures
        a == b,
    decreases a,
{
    lemma_decimal_digits_nonempty(a / 10);
    lemma_decimal_digits_nonempty(b / 10);
    if a < 10 && b < 10 {
        assert(decimal_digits(a)[0] == decimal_digits(b)[0]);
        assert(decimal_digits(a)[0] == (48 + a) as u8);
        assert(decimal_digits(b)[0] == (48 + b) as u8);
        assert((48 + a) as u8 == 48 + a);
        assert((48 + b) as u8 == 48 + b);
    } else if a < 10 {
        assert(decimal_digits(b).len() >= 2);
        assert(decimal_digits(a).len() == 1);
    } else if b < 10 {
        assert(decimal_digits(a).len() >= 2);
        assert(decimal_digits(b).len() == 1);
    } else {
        assert(decimal_digits(a) == decimal_digits(a / 10) + seq![(48 + a % 10) as u8]);
        assert(decimal_digits(b) == decimal_digits(b / 10) + seq![(48 + b % 10) as u8]);
        assert(decimal_digits(a).last() == (48 + a % 10) as u8);
        assert(decimal_digits(b).last() == (48 + b % 10) as u8);
        assert((48 + a % 10) as u8 == (48 + b % 10) as u8);
        assert(a % 10 == b % 10);
        assert(decimal_digits(a).drop_last() =~= decimal_digits(a / 10));
        assert(decimal_digits(b).drop_last() =~= decimal_digits(b / 10));
        lemma_decimal_digits_injective(a / 10, b / 10);
        assert(a as int == 10 * (a as int / 10) + a as int % 10) by {
            vstd::arithmetic::div_mod::lemma_fundamental_div_mod(a as int, 10);
        }
        assert(b as int == 10 * (b as int / 10) + b as int % 10) by {
            vstd::arithmetic::div_mod::lemma_fundamental_div_mod(b as int, 10);
        }
    }
}

/// A slash-free prefix followed by a slash-led rest can be split only one
/// way: equal concatenations have equal parts.
proof fn lemma_slash_split_unique(m1: Seq<u8>, r1: Seq<u8>, m2: Seq<u8>, r2: Seq<u8>)
    requires
        forall|i: int| 0 <= i < m1.len() ==> m1[i] != 47,
        forall|i: int| 0 <= i < m2.len() ==> m2[i] != 47,
        r1.len() > 0 && r1[0] == 47,
        r2.len() > 0 && r2[0] == 47,
        m1 + r1 == m2 + r2,
    ensures
        m1 == m2,
        r1 == r2,
{
    let k = m1 + r1;
    if m1.len() < m2.len() {
        assert(k[m1.len() as int] == r1[0]);
        assert((m2 + r2)[m1.len() as int] == m2[m1.len() as int]);
        assert(false);
    } else if m2.len() < m1.len() {
        assert(k[m2.len() as int] == m1[m2.len() as int]);
        assert((m2 + r2)[m2.len() as int] == r2[0]);
        assert(false);
    } else {
        assert((m1 + r1).len() == (m2 + r2).len());
        assert((m1 + r1).len() == m1.len() + r1.len());
        assert((m2 + r2).len() == m2.len() + r2.len());
        assert(r1.len() == r2.len());
        assert(m1 =~= m2) by {
            assert forall|i: int| 0 <= i < m1.len() implies m1[i] == m2[i] by {
                assert((m1 + r1)[i] == m1[i]);
                assert((m2 + r2)[i] == m2[i]);
            }
        }
        assert(r1 =~= r2) by {
            assert forall|i: int| 0 <= i < r1.len() implies r1[i] == r2[i] by {
                assert((m1 + r1)[m1.len() + i] == r1[i]);
                assert((m2 + r2)[m2.len() + i] == r2[i]);
            }
        }
    }
}

/// For labels shaped like real HTTP requests, the request series key
/// determines the label triple: distinct (method, endpoint, status) triples
/// never share a series.
pub proof fn lemma_request_series_key_injective(
    m1: Seq<u8>,
    e1: Seq<u8>,
    s1: u16,
    m2: Seq<u8>,
    e2: Seq<u8>,
    s2: u16,
)
    requires
        plain_request_labels(m1, e1, s1),
        plain_request_labels(m2, e2, s2),
        request_series_key(m1, e1, s1) == request_series_key(m2, e2, s2),
    ensures
        m1 == m2,
        e1 == e2,
        s1 == s2,
{
    assert(m1 + e1 + status_label(s1) =~= m1 + (e1 + status_label(s1)));
    assert(m2 + e2 + status_label(s2) =~= m2 + (e2 + status_label(s2)));
    lemma_slash_split_unique(m1, e1 + status_label(s1), m2, e2 + status_label(s2));
    lemma_status_label_len3(s1);
    lemma_status_label_len3(s2);
    let t1 = e1 + status_label(s1);
    let t2 = e2 + status_label(s2);
    assert(e1.len() == e2.len());
    assert(e1 =~= e2) by {
        assert(forall|i: int| 0 <= i < e1.len() ==> t1[i] == e1[i] && t2[i] == e2[i]);
    }
    assert(status_label(s1) =~= status_label(s2)) by {
        assert(forall|i: int|
            0 <= i < 3 ==> t1[e1.len() + i] == status_label(s1)[i] && t2[e2.len() + i]
                == status_label(s2)[i]);
    }
    lemma_decimal_digits_injective(s1 as nat, s2 as nat);
}

/// For labels shaped like real HTTP requests, the duration series key
/// determines the label pair.
pub proof fn lemma_duration_series_key_injective(m1: Seq<u8>, e1: Seq<u8>, m2: Seq<u8>, e2: Seq<u8>)
    requires
        forall|i: int| 0 <= i < m1.len() ==> m1[i] != 47,
        forall|i: int| 0 <= i < m2.len() ==> m2[i] != 47,
        e1.len() > 0 && e1[0] == 47,
        e2.len() > 0 && e2[0] == 47,
        duration_series_key(m1, e1) == duration_series_key(m2, e2),
    ensures
        m1 == m2,
        e1 == e2,
{
    lemma_slash_split_unique(m1, e1, m2, e2);
}

/// The per-triple reading of the counting law: a request with plainly shaped
/// labels leaves the series of every other plainly shaped label tuple — and
/// every other duration pair — exactly as it was.
pub proof fn lemma_other_request_series_unchanged(
    m: MetricsModel,
    r: RequestLabel,
    m2: Seq<u8>,
    e2: Seq<u8>,
    s2: u16,
)
    requires
        plain_request_labels(r.method, spec_normalize(r.path), r.status),
        plain_request_labels(m2, e2, s2),
    ensures
        (m2, e2, s2) != (r.method, spec_normalize(r.path), r.status) ==> series_count(
            m.observe(r).requests,
            request_series_key(m2, e2, s2),
        ) == series_count(m.requests, request_series_key(m2, e2, s2)),
        (m2, e2) != (r.method, spec_normalize(r.path)) ==> series_count(
            m.observe(r).durations,
            duration_series_key(m2, e2),
        ) == series_count(m.durations, duration_series_key(m2, e2)),
{
    lemma_request_counted_once(m, r);
    if (m2, e2, s2) != (r.method, spec_normalize(r.path), r.status) {
        if request_series_key(m2, e2, s2) == request_series_key(
            r.method,
            spec_normalize(r.path),
            r.status,
        ) {
            lemma_request_series_key_injective(
                m2,
                e2,
                s2,
                r.method,
                spec_normalize(r.path),
                r.status,
            );
        }
    }
    if (m2, e2) != (r.method, spec_normalize(r.path)) {
        if duration_series_key(m2, e2) == duration_series_key(r.method, spec_normalize(r.path)) {
            lemma_duration_series_key_injective(m2, e2, r.method, spec_normalize(r.path));
        }
    }
}

} // verus!
