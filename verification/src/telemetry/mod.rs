//! Telemetry: rings, admin surface, metric tables and the HTTP decisions.

pub mod admin;
pub mod admin_reply;
pub mod admin_route;
pub mod auth;
pub mod cdr_ring;
pub mod error_ring;
pub mod hep;
pub mod http;
pub mod log_filter;
pub mod metrics;
pub mod otel;
pub mod readiness;
pub mod ring;
pub mod sip_ring;
pub mod transport;
pub mod visitor;
