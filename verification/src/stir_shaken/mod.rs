//! Call verification: certificates, their cache, and the verdict on a signed call.

pub mod cache;
pub mod fetch;
pub mod pem;
pub mod verify;
