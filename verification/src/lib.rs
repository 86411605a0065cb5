//! Verified core of the SIP-to-WebSocket voice bridge daemon.

pub mod net;
pub mod routes;
pub mod security;
pub mod sip;
pub mod stir_shaken;
pub mod telemetry;
pub mod text;
pub mod webhooks;
