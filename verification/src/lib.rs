//! Request-observability core for a small HTTP service: a bounded-cardinality
//! path normalizer, a mathematical model of the metric registry, the registry
//! itself backed by Prometheus instruments, and the pure response logic of the
//! service's endpoints.

pub mod metrics;
pub mod model;
pub mod normalize;
pub mod responses;
