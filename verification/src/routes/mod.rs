//! The dialplan: route tables, their compilation and their evaluation.
//!
//! A TOML text is parsed into a tree ([`document`]), the tree is decoded into
//! routes as written ([`decode`], [`raw`]), those are compiled ([`compile`]) into
//! a [`RouteSet`], and a call ([`CallInfo`]) finds its route in the set
//! ([`compiled`]). The order of the file is the priority of the routes.
pub mod call_info;
pub mod compile;
pub mod compiled;
pub mod decode;
pub mod document;
pub mod load;
pub mod raw;

pub use self::call_info::{CallInfo, Headers};
pub use self::compile::{compile, compile_with_tls, RouteError, TlsLoad};
pub use self::compiled::{BridgeTlsConfig, CompiledRoute, RouteSet};
pub use self::decode::TomlError;
pub use self::load::{load_from_toml, load_with_tls, parse_routes, LoadError};
pub use self::raw::{
    BargeInOverride, BridgeOverride, BridgeTlsOverride, MediaOverride, RawRoute, RawRouteFile,
    RawRouteMatch, RecordingOverride, SecurityOverride,
};
