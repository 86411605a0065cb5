//! Call authentication vocabulary: attestation levels, the verification verdict,
//! the minimum-attestation policy and the compiled configuration.

pub mod attestation;
pub mod config;
pub mod policy;
pub mod verstat;
