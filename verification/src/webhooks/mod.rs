//! Lifecycle webhooks: what is reported of calls and registrations, and to whom.
pub mod event;
pub mod http;
pub mod sink;
