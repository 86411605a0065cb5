//! The SIP side: admission, routing, registrations.
pub mod admission;
pub mod dialog;
pub mod digest;
pub mod drain;
pub mod handler;
pub mod invite;
pub mod message;
pub mod register;
pub mod registrar;
pub mod route;
