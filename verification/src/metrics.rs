//! The metric registry: the real Prometheus instruments, the trusted
//! boundary to the `prometheus` crate, and the verified middleware phases.
//!
//! Each instrument handle carries its recorded contents as an uninterpreted
//! name (`counter_vec_counts`, `gauge_value`, ...). Those names are advanced
//! only by the trusted wrappers' `ensures`, so the registry's model — the
//! view of [`Metrics`] — moves exactly when the real instruments do.

use vstd::prelude::*;
use vstd::string::{StringExecFns, StringSliceAdditionalSpecFns};
use vstd::utf8::{encode_utf8, is_ascii_chars, is_ascii_chars_encode_utf8};
use crate::model::{bump, decimal_digits, MetricsModel, RequestLabel};
use crate::normalize::{lemma_encode_utf8_concat, normalize_path, spec_normalize};

verus! {

/// Reasons a registry operation can fail; mirrored from the underlying
/// exposition library into a type of this crate's own.
#[derive(Clone, Copy, Debug, PartialEq, Eq)]
pub enum MetricsError {
    /// An instrument could not be built or registered at startup
    /// (for example, a duplicate instrument name).
    RegistryConstruction,
    /// The text-format snapshot could not be encoded.
    SnapshotEncoding,
}

impl MetricsError {
    /// A short human-readable description, suitable for logs.
    pub fn describe(&self) -> (r: String)
        ensures
            self is RegistryConstruction ==> r@ == "failed to build or register a metric"@,
            self is SnapshotEncoding ==> r@ == "failed to encode the metrics snapshot"@,
    {
        match self {
            MetricsError::RegistryConstruction => "failed to build or register a metric".to_owned(),
            MetricsError::SnapshotEncoding => "failed to encode the metrics snapshot".to_owned(),
        }
    }
}

// ---------------------------------------------------------------------------
// Declarations of the outside types this module carries around, and handle
// structs for those whose type parameters the prometheus crate does not
// export. Values of all of them are opaque here; everything known about them
// is said by the names and trusted functions below.
// ---------------------------------------------------------------------------

#[verifier::external_type_specification]
#[verifier::external_body]
pub struct ExRegistry(prometheus::Registry);

#[verifier::external_type_specification]
#[verifier::external_body]
pub struct ExHistogram(prometheus::Histogram);

#[verifier::external_type_specification]
#[verifier::external_body]
pub struct ExHistogramTimer(prometheus::HistogramTimer);

#[verifier::external_type_specification]
#[verifier::external_body]
pub struct ExPrometheusError(prometheus::Error);

/// Holds a `prometheus::IntCounterVec`, the labeled request counter. Its
/// type parameters cannot be named outside the `prometheus` crate, so the
/// instrument lives opaquely inside this struct and is reached only through
/// the trusted functions below.
#[verifier::external_body]
pub struct CounterVecHandle {
    inner: prometheus::IntCounterVec,
}

/// Holds a `prometheus::HistogramVec`, the labeled latency histogram, for
/// the same reason as [`CounterVecHandle`].
#[verifier::external_body]
pub struct HistogramVecHandle {
    inner: prometheus::HistogramVec,
}

/// Holds a `prometheus::Gauge`. Its underlying generic type takes a type
/// parameter bound by a trait of the `prometheus` crate, which cannot be
/// declared here, so the gauge too lives opaquely inside this struct.
#[verifier::external_body]
pub struct GaugeHandle {
    inner: prometheus::Gauge,
}

/// Holds a `prometheus::IntCounter`, for the same reason as [`GaugeHandle`].
#[verifier::external_body]
pub struct IntCounterHandle {
    inner: prometheus::IntCounter,
}

// ---------------------------------------------------------------------------
// What the instruments hold, as uninterpreted names. Only the trusted
// functions below say how a call moves them.
// ---------------------------------------------------------------------------

/// The fully-qualified metric names registered in a registry. Duplicate
/// detection in the library compares 64-bit hashes of these names; it is
/// modeled here by the names themselves.
pub uninterp spec fn registry_names(r: prometheus::Registry) -> Set<Seq<u8>>;

/// Number of increments recorded per series. The library keys a family's
/// children by a 64-bit hash of the label values' bytes written back to
/// back, with no separator; the key here is that concatenation itself (the
/// hash idealized away, as for `registry_names`). Label tuples whose
/// concatenations coincide are one series. A series is absent until its
/// first increment.
pub uninterp spec fn counter_vec_counts(c: CounterVecHandle) -> Map<Seq<u8>, nat>;

/// Number of observations recorded through the calls below, per series,
/// keyed like [`counter_vec_counts`]. A timer dropped without the recording
/// call below observes on the instrument too, by its own drop glue; no name
/// tracks that.
pub uninterp spec fn histogram_vec_counts(h: HistogramVecHandle) -> Map<Seq<u8>, nat>;

/// Identity of the underlying histogram family, used to tie a running timer
/// back to the family it will record into.
pub uninterp spec fn histogram_vec_id(h: HistogramVecHandle) -> int;

/// Whether every label child of the family can be created: true exactly when
/// none of its label names is the reserved bucket label `le`; child creation
/// panics otherwise.
pub uninterp spec fn histogram_vec_observable(h: HistogramVecHandle) -> bool;

/// Net number of unit increments minus unit decrements applied to the gauge.
pub uninterp spec fn gauge_value(g: GaugeHandle) -> int;

/// Number of increments recorded on the unlabeled counter.
pub uninterp spec fn int_counter_value(c: IntCounterHandle) -> nat;

/// Number of observations recorded on the unlabeled histogram.
pub uninterp spec fn histogram_observations(h: prometheus::Histogram) -> nat;

/// The family a running timer belongs to.
pub uninterp spec fn timer_vec(t: prometheus::HistogramTimer) -> int;

/// The series key — the concatenated label value bytes — of the child a
/// running timer will record into.
pub uninterp spec fn timer_key(t: prometheus::HistogramTimer) -> Seq<u8>;

/// Whether one byte sequence occurs contiguously inside another.
pub open spec fn contains_bytes(hay: Seq<u8>, needle: Seq<u8>) -> bool {
    exists|i: int|
        0 <= i && i + needle.len() <= hay.len() && #[trigger] hay.subrange(i, i + needle.len())
            == needle
}

// ---------------------------------------------------------------------------
// The registration rules of the exposition library, as it validates them:
// a metric name is `[a-zA-Z_:][a-zA-Z0-9_:]*`, a label name is
// `[a-zA-Z_][a-zA-Z0-9_]*`, the help string must not be empty, label names
// must be distinct, and a name may be registered only once.
// ---------------------------------------------------------------------------

/// Bytes allowed to open a metric name.
pub open spec fn is_name_start_byte(b: u8) -> bool {
    (97 <= b <= 122) || (65 <= b <= 90) || b == 95 || b == 58
}

/// Bytes allowed inside a metric name.
pub open spec fn is_name_byte(b: u8) -> bool {
    is_name_start_byte(b) || (48 <= b <= 57)
}

/// Whether the bytes form a valid metric name.
pub open spec fn valid_metric_name(s: Seq<u8>) -> bool {
    s.len() > 0 && is_name_start_byte(s[0]) && (forall|i: int|
        1 <= i < s.len() ==> is_name_byte(#[trigger] s[i]))
}

/// Bytes allowed to open a label name (no colon).
pub open spec fn is_label_start_byte(b: u8) -> bool {
    (97 <= b <= 122) || (65 <= b <= 90) || b == 95
}

/// Bytes allowed inside a label name.
pub open spec fn is_label_byte(b: u8) -> bool {
    is_label_start_byte(b) || (48 <= b <= 57)
}

/// Whether the bytes form a valid label name.
pub open spec fn valid_label_name(s: Seq<u8>) -> bool {
    s.len() > 0 && is_label_start_byte(s[0]) && (forall|i: int|
        1 <= i < s.len() ==> is_label_byte(#[trigger] s[i]))
}

/// Whether registering an instrument under `name` with this help text
/// succeeds against a registry already holding `names`.
pub open spec fn registration_accepted(names: Set<Seq<u8>>, name: Seq<u8>, help: Seq<u8>) -> bool {
    help.len() > 0 && valid_metric_name(name) && !names.contains(name)
}

/// Whether three variable label names are accepted: each valid, all distinct.
pub open spec fn labels3_accepted(l1: Seq<u8>, l2: Seq<u8>, l3: Seq<u8>) -> bool {
    valid_label_name(l1) && valid_label_name(l2) && valid_label_name(l3) && l1 != l2 && l1 != l3
        && l2 != l3
}

/// Whether two variable label names are accepted: each valid, distinct.
pub open spec fn labels2_accepted(l1: Seq<u8>, l2: Seq<u8>) -> bool {
    valid_label_name(l1) && valid_label_name(l2) && l1 != l2
}

/// Whether building and registering a three-label instrument succeeds.
pub open spec fn vec3_accepted(
    names: Set<Seq<u8>>,
    name: Seq<u8>,
    help: Seq<u8>,
    l1: Seq<u8>,
    l2: Seq<u8>,
    l3: Seq<u8>,
) -> bool {
    registration_accepted(names, name, help) && labels3_accepted(l1, l2, l3)
}

/// Whether building and registering a two-label instrument succeeds.
pub open spec fn vec2_accepted(
    names: Set<Seq<u8>>,
    name: Seq<u8>,
    help: Seq<u8>,
    l1: Seq<u8>,
    l2: Seq<u8>,
) -> bool {
    registration_accepted(names, name, help) && labels2_accepted(l1, l2)
}

/// The bytes of the reserved histogram bucket label `le`.
pub open spec fn le_label() -> Seq<u8> {
    seq![108u8, 101u8]
}

// ---------------------------------------------------------------------------
// The trusted boundary to the prometheus crate.
// ---------------------------------------------------------------------------

/// Relies on `prometheus::Registry::new`: builds a fresh, empty registry.
#[verifier::external_body]
fn new_registry() -> (r: prometheus::Registry)
    ensures
        registry_names(r) == Set::<Seq<u8>>::empty(),
{
    prometheus::Registry::new()
}

/// Relies on `prometheus::IntCounterVec::new` and `prometheus::Registry::register`:
/// builds a labeled 64-bit counter with the three given label names and
/// registers it. Construction validates the metric name, the non-empty help
/// text and the label names; registration rejects a name already present.
/// A fresh instrument has recorded nothing.
#[verifier::external_body]
fn new_counter_vec_registered(
    r: &mut prometheus::Registry,
    name: &str,
    help: &str,
    label1: &str,
    label2: &str,
    label3: &str,
) -> (res: Result<CounterVecHandle, prometheus::Error>)
    ensures
        res is Ok <==> vec3_accepted(
            registry_names(*old(r)),
            name.spec_bytes(),
            help.spec_bytes(),
            label1.spec_bytes(),
            label2.spec_bytes(),
            label3.spec_bytes(),
        ),
        res is Ok ==> registry_names(*final(r)) == registry_names(*old(r)).insert(
            name.spec_bytes(),
        ),
        res is Err ==> registry_names(*final(r)) == registry_names(*old(r)),
        res matches Ok(c) ==> counter_vec_counts(c) == MetricsModel::init().requests,
{
    let c = prometheus::IntCounterVec::new(
        prometheus::Opts::new(name, help),
        &[label1, label2, label3],
    )?;
    r.register(Box::new(c.clone()))?;
    Ok(CounterVecHandle { inner: c })
}

/// Relies on `prometheus::HistogramVec::new` and `prometheus::Registry::register`:
/// builds a labeled histogram with the default bucket schedule and the two
/// given label names and registers it, under the same validation as the
/// counter above. The reserved bucket label `le` is rejected only when a
/// label child is created, so a fresh family is observable exactly when
/// neither label name is `le`.
#[verifier::external_body]
fn new_histogram_vec_registered(
    r: &mut prometheus::Registry,
    name: &str,
    help: &str,
    label1: &str,
    label2: &str,
) -> (res: Result<HistogramVecHandle, prometheus::Error>)
    ensures
        res is Ok <==> vec2_accepted(
            registry_names(*old(r)),
            name.spec_bytes(),
            help.spec_bytes(),
            label1.spec_bytes(),
            label2.spec_bytes(),
        ),
        res is Ok ==> registry_names(*final(r)) == registry_names(*old(r)).insert(
            name.spec_bytes(),
        ),
        res is Err ==> registry_names(*final(r)) == registry_names(*old(r)),
        res matches Ok(h) ==> histogram_vec_counts(h) == MetricsModel::init().durations,
        res matches Ok(h) ==> (histogram_vec_observable(h) <==> (label1.spec_bytes() != le_label()
            && label2.spec_bytes() != le_label())),
{
    let h = prometheus::HistogramVec::new(
        prometheus::HistogramOpts::new(name, help),
        &[label1, label2],
    )?;
    r.register(Box::new(h.clone()))?;
    Ok(HistogramVecHandle { inner: h })
}

/// Relies on `prometheus::Gauge::with_opts` and `prometheus::Registry::register`:
/// builds an unlabeled gauge, starting at zero, and registers it.
#[verifier::external_body]
fn new_gauge_registered(
    r: &mut prometheus::Registry,
    name: &str,
    help: &str,
) -> (res: Result<GaugeHandle, prometheus::Error>)
    ensures
        res is Ok <==> registration_accepted(
            registry_names(*old(r)),
            name.spec_bytes(),
            help.spec_bytes(),
        ),
        res is Ok ==> registry_names(*final(r)) == registry_names(*old(r)).insert(
            name.spec_bytes(),
        ),
        res is Err ==> registry_names(*final(r)) == registry_names(*old(r)),
        res matches Ok(g) ==> gauge_value(g) == 0,
{
    let g = prometheus::Gauge::with_opts(prometheus::Opts::new(name, help))?;
    r.register(Box::new(g.clone()))?;
    Ok(GaugeHandle { inner: g })
}

/// Relies on `prometheus::IntCounter::with_opts` and `prometheus::Registry::register`:
/// builds an unlabeled 64-bit counter, starting at zero, and registers it.
#[verifier::external_body]
fn new_counter_registered(
    r: &mut prometheus::Registry,
    name: &str,
    help: &str,
) -> (res: Result<IntCounterHandle, prometheus::Error>)
    ensures
        res is Ok <==> registration_accepted(
            registry_names(*old(r)),
            name.spec_bytes(),
            help.spec_bytes(),
        ),
        res is Ok ==> registry_names(*final(r)) == registry_names(*old(r)).insert(
            name.spec_bytes(),
        ),
        res is Err ==> registry_names(*final(r)) == registry_names(*old(r)),
        res matches Ok(c) ==> int_counter_value(c) == 0,
{
    let c = prometheus::IntCounter::with_opts(prometheus::Opts::new(name, help))?;
    r.register(Box::new(c.clone()))?;
    Ok(IntCounterHandle { inner: c })
}

/// Relies on `prometheus::Histogram::with_opts` and `prometheus::Registry::register`:
/// builds an unlabeled histogram with the default bucket schedule, holding
/// no observations yet, and registers it.
#[verifier::external_body]
fn new_histogram_registered(
    r: &mut prometheus::Registry,
    name: &str,
    help: &str,
) -> (res: Result<prometheus::Histogram, prometheus::Error>)
    ensures
        res is Ok <==> registration_accepted(
            registry_names(*old(r)),
            name.spec_bytes(),
            help.spec_bytes(),
        ),
        res is Ok ==> registry_names(*final(r)) == registry_names(*old(r)).insert(
            name.spec_bytes(),
        ),
        res is Err ==> registry_names(*final(r)) == registry_names(*old(r)),
        res matches Ok(h) ==> histogram_observations(h) == 0,
{
    let h = prometheus::Histogram::with_opts(prometheus::HistogramOpts::new(name, help))?;
    r.register(Box::new(h.clone()))?;
    Ok(h)
}

/// Relies on `prometheus::core::GenericGauge::inc`: raises the gauge by one.
#[verifier::external_body]
fn gauge_inc(g: &mut GaugeHandle)
    ensures
        gauge_value(*final(g)) == gauge_value(*old(g)) + 1,
{
    g.inner.inc();
}

/// Relies on `prometheus::core::GenericGauge::dec`: lowers the gauge by one.
#[verifier::external_body]
fn gauge_dec(g: &mut GaugeHandle)
    ensures
        gauge_value(*final(g)) == gauge_value(*old(g)) - 1,
{
    g.inner.dec();
}

/// Relies on `prometheus::core::MetricVec::with_label_values` and
/// `prometheus::core::GenericCounter::inc`: raises by one the counter child
/// keyed by the given label values — the lookup hashes their concatenated
/// bytes — creating and retaining the child on first use.
#[verifier::external_body]
fn counter_vec_inc(c: &mut CounterVecHandle, method: &str, endpoint: &str, status: &str)
    ensures
        counter_vec_counts(*final(c)) == bump(
            counter_vec_counts(*old(c)),
            method.spec_bytes() + endpoint.spec_bytes() + status.spec_bytes(),
        ),
{
    c.inner.with_label_values(&[method, endpoint, status]).inc();
}

/// Relies on `prometheus::core::MetricVec::with_label_values` and
/// `prometheus::Histogram::start_timer`: starts a timer, backed by a
/// monotonic clock, on the family's child at the given label values,
/// creating and retaining the child on first use. Starting a timer records
/// nothing yet; the returned timer belongs to this family at these labels.
#[verifier::external_body]
fn histogram_start_timer(h: &HistogramVecHandle, method: &str, endpoint: &str) -> (t:
    prometheus::HistogramTimer)
    requires
        histogram_vec_observable(*h),
    ensures
        timer_vec(t) == histogram_vec_id(*h),
        timer_key(t) == method.spec_bytes() + endpoint.spec_bytes(),
{
    h.inner.with_label_values(&[method, endpoint]).start_timer()
}

/// Relies on `prometheus::HistogramTimer::observe_duration`: records the
/// seconds elapsed since the timer started as exactly one observation on
/// the child the timer was started on — hence the requirement that the
/// timer belongs to this family.
#[verifier::external_body]
fn timer_observe(h: &mut HistogramVecHandle, t: prometheus::HistogramTimer)
    requires
        timer_vec(t) == histogram_vec_id(*old(h)),
    ensures
        histogram_vec_counts(*final(h)) == bump(histogram_vec_counts(*old(h)), timer_key(t)),
        histogram_vec_id(*final(h)) == histogram_vec_id(*old(h)),
        histogram_vec_observable(*final(h)) == histogram_vec_observable(*old(h)),
{
    let _ = h;
    t.observe_duration();
}

// ---------------------------------------------------------------------------
// The registry and the middleware phases.
// ---------------------------------------------------------------------------

/// The process-wide metric registry: one instrument per time series family.
/// The fields are private: every value of this type was built by
/// [`Metrics::new`], so the registry holds exactly the handles' instruments.
pub struct Metrics {
    registry: prometheus::Registry,
    http_requests_total: CounterVecHandle,
    http_request_duration_seconds: HistogramVecHandle,
    active_connections: GaugeHandle,
    database_queries_total: IntCounterHandle,
    database_query_duration_seconds: prometheus::Histogram,
}

impl View for Metrics {
    type V = MetricsModel;

    /// The registry's mathematical state is what its instruments have
    /// recorded; it moves only when a trusted instrument call moves it.
    closed spec fn view(&self) -> MetricsModel {
        MetricsModel {
            requests: counter_vec_counts(self.http_requests_total),
            durations: histogram_vec_counts(self.http_request_duration_seconds),
            active: gauge_value(self.active_connections),
        }
    }
}

/// Relies on `prometheus::Registry::gather` and
/// `prometheus::TextEncoder::encode_to_string`: a consistent read of each
/// registered instrument, serialized in the Prometheus text exposition
/// format (version 0.0.4). Gathering prunes families with no series, and
/// the three unlabeled instruments always expose one, so their names are
/// always in the text; a labeled family's name appears once it has a
/// series. Every `Metrics` was built by `Metrics::new`, so its registry
/// holds exactly its own five instruments.
#[verifier::external_body]
fn gather_text(m: &Metrics) -> (res: Result<String, prometheus::Error>)
    ensures
        res matches Ok(s) ==> contains_bytes(encode_utf8(s@), "active_connections".spec_bytes()),
        res matches Ok(s) ==> contains_bytes(
            encode_utf8(s@),
            "database_queries_total".spec_bytes(),
        ),
        res matches Ok(s) ==> contains_bytes(
            encode_utf8(s@),
            "database_query_duration_seconds".spec_bytes(),
        ),
        res matches Ok(s) ==> (counter_vec_counts(m.http_requests_total)
            != MetricsModel::init().requests ==> contains_bytes(
            encode_utf8(s@),
            "http_requests_total".spec_bytes(),
        )),
        res matches Ok(s) ==> (histogram_vec_counts(m.http_request_duration_seconds)
            != MetricsModel::init().durations ==> contains_bytes(
            encode_utf8(s@),
            "http_request_duration_seconds".spec_bytes(),
        )),
{
    let families = m.registry.gather();
    prometheus::TextEncoder::new().encode_to_string(&families)
}

/// Everything the middleware's post-phase needs about a request that its
/// pre-phase saw: the method and normalized-endpoint label values, and the
/// running latency timer. If the observation is dropped without the
/// post-phase, the timer still records its elapsed time on the histogram by
/// its own drop behavior, with no matching request count.
pub struct RequestObservation {
    pub method: String,
    pub endpoint: String,
    pub timer: prometheus::HistogramTimer,
}

/// The five instrument names served by the registry.
pub open spec fn instrument_names() -> Set<Seq<u8>> {
    Set::empty().insert("http_requests_total".spec_bytes()).insert(
        "http_request_duration_seconds".spec_bytes(),
    ).insert("active_connections".spec_bytes()).insert(
        "database_queries_total".spec_bytes(),
    ).insert("database_query_duration_seconds".spec_bytes())
}

impl Metrics {
    /// The latency family was built with safe label names, so its children
    /// can always be created.
    pub closed spec fn wf(self) -> bool {
        histogram_vec_observable(self.http_request_duration_seconds)
    }

    /// Identity of the latency family, which ties each observation back to
    /// the pre-phase that started its timer.
    pub closed spec fn latency_family(self) -> int {
        histogram_vec_id(self.http_request_duration_seconds)
    }

    /// The instrument names registered in this registry.
    pub closed spec fn registered(self) -> Set<Seq<u8>> {
        registry_names(self.registry)
    }

    /// What `database_queries_total` has recorded.
    pub closed spec fn db_query_count(self) -> nat {
        int_counter_value(self.database_queries_total)
    }

    /// What `database_query_duration_seconds` has recorded.
    pub closed spec fn db_query_observations(self) -> nat {
        histogram_observations(self.database_query_duration_seconds)
    }

    /// Builds the registry and its five instruments. The five hardcoded
    /// names are distinct and valid and the registry starts empty, so
    /// construction always succeeds; every instrument starts with nothing
    /// recorded.
    pub fn new() -> (r: Result<Metrics, MetricsError>)
        ensures
            r is Ok,
            r matches Ok(m) ==> m@ == MetricsModel::init() && m.wf(),
            r matches Ok(m) ==> m.registered() == instrument_names(),
            r matches Ok(m) ==> m.db_query_count() == 0,
            r matches Ok(m) ==> m.db_query_observations() == 0,
    {
        proof {
            lemma_instrument_literals();
        }
        let mut registry = new_registry();
        let http_requests_total = match new_counter_vec_registered(
            &mut registry,
            "http_requests_total",
            "Total number of HTTP requests",
            "method",
            "endpoint",
            "status",
        ) {
            Ok(c) => c,
            Err(_) => {
                return Err(MetricsError::RegistryConstruction);
            },
        };
        let http_request_duration_seconds = match new_histogram_vec_registered(
            &mut registry,
            "http_request_duration_seconds",
            "HTTP request duration in seconds",
            "method",
            "endpoint",
        ) {
            Ok(h) => h,
            Err(_) => {
                return Err(MetricsError::RegistryConstruction);
            },
        };
        let active_connections = match new_gauge_registered(
            &mut registry,
            "active_connections",
            "Number of active connections",
        ) {
            Ok(g) => g,
            Err(_) => {
                return Err(MetricsError::RegistryConstruction);
            },
        };
        let database_queries_total = match new_counter_registered(
            &mut registry,
            "database_queries_total",
            "Total number of database queries",
        ) {
            Ok(c) => c,
            Err(_) => {
                return Err(MetricsError::RegistryConstruction);
            },
        };
        let database_query_duration_seconds = match new_histogram_registered(
            &mut registry,
            "database_query_duration_seconds",
            "Database query duration in seconds",
        ) {
            Ok(h) => h,
            Err(_) => {
                return Err(MetricsError::RegistryConstruction);
            },
        };
        let m = Metrics {
            registry,
            http_requests_total,
            http_request_duration_seconds,
            active_connections,
            database_queries_total,
            database_query_duration_seconds,
        };
        proof {
            assert(registry_names(m.registry) =~= instrument_names());
            assert(m@ =~= MetricsModel::init());
        }
        Ok(m)
    }

    /// Pre-phase of the middleware: normalizes the path into the endpoint
    /// label, raises the in-flight gauge, and starts the latency timer.
    /// Nothing else moves: every counter series, the duration counts and
    /// the database instruments stay as they were. The post-phase must be
    /// given the returned observation.
    pub fn on_request_start(&mut self, method: &str, path: &str) -> (obs: RequestObservation)
        requires
            old(self).wf(),
        ensures
            final(self)@ == old(self)@.on_start(),
            final(self).wf(),
            final(self).registered() == old(self).registered(),
            final(self).latency_family() == old(self).latency_family(),
            final(self).db_query_count() == old(self).db_query_count(),
            final(self).db_query_observations() == old(self).db_query_observations(),
            obs.method@ == method@,
            encode_utf8(obs.endpoint@) == spec_normalize(path.spec_bytes()),
            timer_vec(obs.timer) == old(self).latency_family(),
            timer_key(obs.timer) == method.spec_bytes() + encode_utf8(obs.endpoint@),
    {
        let endpoint = normalize_path(path);
        gauge_inc(&mut self.active_connections);
        let timer = histogram_start_timer(
            &self.http_request_duration_seconds,
            method,
            endpoint.as_str(),
        );
        RequestObservation { method: method.to_owned(), endpoint, timer }
    }

    /// Post-phase of the middleware: counts the request at its own series,
    /// records the elapsed time at its duration series, and lowers the
    /// in-flight gauge — one count and one observation, whatever status the
    /// handler produced. Every other series and every other instrument is
    /// untouched, and nothing of the request survives the call.
    pub fn on_request_end(&mut self, obs: RequestObservation, status: u16)
        requires
            old(self)@.active >= 1,
            timer_vec(obs.timer) == old(self).latency_family(),
            timer_key(obs.timer) == encode_utf8(obs.method@) + encode_utf8(obs.endpoint@),
        ensures
            final(self)@ == old(self)@.on_end(
                encode_utf8(obs.method@),
                encode_utf8(obs.endpoint@),
                status,
            ),
            final(self).wf() == old(self).wf(),
            final(self).registered() == old(self).registered(),
            final(self).latency_family() == old(self).latency_family(),
            final(self).db_query_count() == old(self).db_query_count(),
            final(self).db_query_observations() == old(self).db_query_observations(),
    {
        let status_text = status_label_string(status);
        counter_vec_inc(
            &mut self.http_requests_total,
            obs.method.as_str(),
            obs.endpoint.as_str(),
            status_text.as_str(),
        );
        timer_observe(&mut self.http_request_duration_seconds, obs.timer);
        gauge_dec(&mut self.active_connections);
        proof {
            assert(self@ =~= old(self)@.on_end(
                encode_utf8(obs.method@),
                encode_utf8(obs.endpoint@),
                status,
            ));
        }
    }

    /// Records one completed request in a single step: the pre-phase
    /// immediately followed by the post-phase. The gauge ends where it
    /// began, and exactly the request's own series grow by one.
    pub fn observe_request(&mut self, method: &str, path: &str, status: u16)
        requires
            old(self).wf(),
            old(self)@.active >= 0,
        ensures
            final(self)@ == old(self)@.observe(
                RequestLabel { method: method.spec_bytes(), path: path.spec_bytes(), status },
            ),
            final(self).wf(),
            final(self).registered() == old(self).registered(),
            final(self).db_query_count() == old(self).db_query_count(),
            final(self).db_query_observations() == old(self).db_query_observations(),
    {
        let obs = self.on_request_start(method, path);
        self.on_request_end(obs, status);
    }

    /// The registry's current state in the Prometheus text exposition
    /// format; the only failure is an encoding failure. The snapshot names
    /// the three unlabeled instruments always, and each labeled family once
    /// it has recorded a series.
    pub fn gather(&self) -> (r: Result<String, MetricsError>)
        ensures
            r matches Err(e) ==> e == MetricsError::SnapshotEncoding,
            r matches Ok(s) ==> contains_bytes(
                encode_utf8(s@),
                "active_connections".spec_bytes(),
            ),
            r matches Ok(s) ==> contains_bytes(
                encode_utf8(s@),
                "database_queries_total".spec_bytes(),
            ),
            r matches Ok(s) ==> contains_bytes(
                encode_utf8(s@),
                "database_query_duration_seconds".spec_bytes(),
            ),
            r matches Ok(s) ==> (self@.requests != MetricsModel::init().requests
                ==> contains_bytes(
                encode_utf8(s@),
                "http_requests_total".spec_bytes(),
            )),
            r matches Ok(s) ==> (self@.durations != MetricsModel::init().durations
                ==> contains_bytes(
                encode_utf8(s@),
                "http_request_duration_seconds".spec_bytes(),
            )),
    {
        match gather_text(self) {
            Ok(s) => Ok(s),
            Err(_) => Err(MetricsError::SnapshotEncoding),
        }
    }
}

/// The instrument and label names used by [`Metrics::new`] are valid, their
/// help texts non-empty, and the five instrument names pairwise distinct.
proof fn lemma_instrument_literals()
    ensures
        valid_metric_name("http_requests_total".spec_bytes()),
        valid_metric_name("http_request_duration_seconds".spec_bytes()),
        valid_metric_name("active_connections".spec_bytes()),
        valid_metric_name("database_queries_total".spec_bytes()),
        valid_metric_name("database_query_duration_seconds".spec_bytes()),
        "Total number of HTTP requests".spec_bytes().len() > 0,
        "HTTP request duration in seconds".spec_bytes().len() > 0,
        "Number of active connections".spec_bytes().len() > 0,
        "Total number of database queries".spec_bytes().len() > 0,
        "Database query duration in seconds".spec_bytes().len() > 0,
        labels3_accepted(
            "method".spec_bytes(),
            "endpoint".spec_bytes(),
            "status".spec_bytes(),
        ),
        labels2_accepted("method".spec_bytes(), "endpoint".spec_bytes()),
        "method".spec_bytes() != le_label(),
        "endpoint".spec_bytes() != le_label(),
        "http_requests_total".spec_bytes().len() == 19,
        "http_request_duration_seconds".spec_bytes().len() == 29,
        "active_connections".spec_bytes().len() == 18,
        "database_queries_total".spec_bytes().len() == 22,
        "database_query_duration_seconds".spec_bytes().len() == 31,
{
    reveal_strlit("http_requests_total");
    reveal_strlit("http_request_duration_seconds");
    reveal_strlit("active_connections");
    reveal_strlit("database_queries_total");
    reveal_strlit("database_query_duration_seconds");
    reveal_strlit("Total number of HTTP requests");
    reveal_strlit("HTTP request duration in seconds");
    reveal_strlit("Number of active connections");
    reveal_strlit("Total number of database queries");
    reveal_strlit("Database query duration in seconds");
    reveal_strlit("method");
    reveal_strlit("endpoint");
    reveal_strlit("status");
    lemma_ascii_valid_metric_name("http_requests_total");
    lemma_ascii_valid_metric_name("http_request_duration_seconds");
    lemma_ascii_valid_metric_name("active_connections");
    lemma_ascii_valid_metric_name("database_queries_total");
    lemma_ascii_valid_metric_name("database_query_duration_seconds");
    lemma_ascii_help("Total number of HTTP requests");
    lemma_ascii_help("HTTP request duration in seconds");
    lemma_ascii_help("Number of active connections");
    lemma_ascii_help("Total number of database queries");
    lemma_ascii_help("Database query duration in seconds");
    lemma_ascii_valid_label_name("method");
    lemma_ascii_valid_label_name("endpoint");
    lemma_ascii_valid_label_name("status");
    is_ascii_chars_encode_utf8("method"@);
    is_ascii_chars_encode_utf8("status"@);
    assert("method".spec_bytes()[0] == 109);
    assert("status".spec_bytes()[0] == 115);
}

/// An ASCII literal whose characters fit the metric-name charset has valid
/// metric-name bytes.
proof fn lemma_ascii_valid_metric_name(s: &str)
    requires
        is_ascii_chars(s@),
        s@.len() > 0,
        is_name_start_byte(s@[0] as u8),
        forall|i: int| 1 <= i < s@.len() ==> is_name_byte(#[trigger] s@[i] as u8),
    ensures
        valid_metric_name(s.spec_bytes()),
        s.spec_bytes().len() == s@.len(),
{
    is_ascii_chars_encode_utf8(s@);
}

/// An ASCII literal whose characters fit the label-name charset has valid
/// label-name bytes.
proof fn lemma_ascii_valid_label_name(s: &str)
    requires
        is_ascii_chars(s@),
        s@.len() > 0,
        is_label_start_byte(s@[0] as u8),
        forall|i: int| 1 <= i < s@.len() ==> is_label_byte(#[trigger] s@[i] as u8),
    ensures
        valid_label_name(s.spec_bytes()),
        s.spec_bytes().len() == s@.len(),
{
    is_ascii_chars_encode_utf8(s@);
}

/// A non-empty ASCII literal has non-empty bytes.
proof fn lemma_ascii_help(s: &str)
    requires
        is_ascii_chars(s@),
        s@.len() > 0,
    ensures
        s.spec_bytes().len() == s@.len(),
{
    is_ascii_chars_encode_utf8(s@);
}

// ---------------------------------------------------------------------------
// Status labels.
// ---------------------------------------------------------------------------

/// One decimal digit as a string.
fn digit_str(d: u16) -> (r: &'static str)
    requires
        d < 10,
    ensures
        r.spec_bytes() == seq![(48 + d) as u8],
{
    let r: &'static str = match d {
        0 => "0",
        1 => "1",
        2 => "2",
        3 => "3",
        4 => "4",
        5 => "5",
        6 => "6",
        7 => "7",
        8 => "8",
        _ => "9",
    };
    proof {
        reveal_strlit("0");
        reveal_strlit("1");
        reveal_strlit("2");
        reveal_strlit("3");
        reveal_strlit("4");
        reveal_strlit("5");
        reveal_strlit("6");
        reveal_strlit("7");
        reveal_strlit("8");
        reveal_strlit("9");
        assert(is_ascii_chars(r@));
        is_ascii_chars_encode_utf8(r@);
        assert(r.spec_bytes() =~= seq![(48 + d) as u8]);
    }
    r
}

/// The decimal form of a status code, fit for use as a label value.
pub fn status_label_string(status: u16) -> (r: String)
    ensures
        encode_utf8(r@) == decimal_digits(status as nat),
    decreases status,
{
    if status < 10 {
        digit_str(status).to_owned()
    } else {
        let mut r = status_label_string(status / 10);
        let d = digit_str(status % 10);
        let ghost r0 = r@;
        r.append(d);
        proof {
            lemma_encode_utf8_concat(r0, d@);
        }
        r
    }
}

} // verus!
