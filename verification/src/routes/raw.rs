//! The dialplan as it is written: `[[route]]` tables before compilation.
//!
//! Override blocks hold only what a route set; an unset field inherits the
//! global value, which is settled elsewhere.
use vstd::prelude::*;

verus! {

/// The `[[route]]` tables of one file, in file order.
#[derive(Debug, Clone)]
pub struct RawRouteFile {
    pub routes: Vec<RawRoute>,
}

/// One `[[route]]` table.
#[derive(Debug, Clone)]
pub struct RawRoute {
    pub name: String,
    pub match_: RawRouteMatch,
    pub bridge: BridgeOverride,
    pub media: MediaOverride,
    pub security: SecurityOverride,
    pub recording: RecordingOverride,
}

/// `[route.match]`. Every string is a case-insensitive literal, or a regular
/// expression where `regex` is set; the flag holds for the whole block. `header`
/// lists the header predicates in the order of their names.
#[derive(Debug, Clone)]
pub struct RawRouteMatch {
    pub any: bool,
    pub regex: bool,
    pub request_uri_user: Option<String>,
    pub request_uri_host: Option<String>,
    pub to_user: Option<String>,
    pub to_host: Option<String>,
    pub from_user: Option<String>,
    pub from_host: Option<String>,
    pub register_source: Option<String>,
    pub peer_cert_san: Option<String>,
    pub header: Vec<(String, String)>,
}

/// `[route.bridge]`.
#[derive(Debug, Clone, PartialEq)]
pub struct BridgeOverride {
    pub ws_url: Option<String>,
    pub ws_auth_header: Option<String>,
    pub audio_direction: Option<String>,
    pub on_ws_failure: Option<String>,
    pub ws_connect_timeout_ms: Option<u64>,
    pub barge_in: BargeInOverride,
    pub silence_threshold_ms: Option<u64>,
    pub dead_air_threshold_ms: Option<u64>,
    pub rtp_stats_interval_ms: Option<u64>,
    pub tls: Option<BridgeTlsOverride>,
}

/// `[route.bridge.barge_in]`.
#[derive(Debug, Clone, PartialEq)]
pub struct BargeInOverride {
    pub enabled: Option<bool>,
    pub mode: Option<String>,
    pub debounce_ms: Option<u64>,
}

/// `[route.bridge.tls]`: the files of the client certificate and its key, and
/// the server certificate to accept, if pinned.
#[derive(Debug, Clone, PartialEq)]
pub struct BridgeTlsOverride {
    pub client_cert: String,
    pub client_key: String,
    pub pinned_sha256: Option<String>,
}

/// `[route.media]`.
#[derive(Debug, Clone, PartialEq)]
pub struct MediaOverride {
    pub codecs: Option<Vec<String>>,
    pub dtmf: Option<String>,
    pub inactivity_timeout_secs: Option<u64>,
    pub rtp_port_range: Option<(u16, u16)>,
    pub srtp: Option<String>,
}

/// `[route.security]`.
#[derive(Debug, Clone, PartialEq)]
pub struct SecurityOverride {
    pub min_attestation: Option<String>,
}

/// `[route.recording]`.
#[derive(Debug, Clone, PartialEq)]
pub struct RecordingOverride {
    pub mode: Option<String>,
}

impl RawRouteMatch {
    /// Some key other than the two flags is set.
    pub open spec fn has_predicates(self) -> bool {
        ||| self.request_uri_user is Some
        ||| self.request_uri_host is Some
        ||| self.to_user is Some
        ||| self.to_host is Some
        ||| self.from_user is Some
        ||| self.from_host is Some
        ||| self.register_source is Some
        ||| self.peer_cert_san is Some
        ||| self.header@.len() > 0
    }
}

impl BargeInOverride {
    /// Nothing is overridden.
    pub open spec fn inherits(self) -> bool {
        self.enabled is None && self.mode is None && self.debounce_ms is None
    }
}

impl BridgeOverride {
    /// Nothing is overridden.
    pub open spec fn inherits(self) -> bool {
        &&& self.ws_url is None
        &&& self.ws_auth_header is None
        &&& self.audio_direction is None
        &&& self.on_ws_failure is None
        &&& self.ws_connect_timeout_ms is None
        &&& self.barge_in.inherits()
        &&& self.silence_threshold_ms is None
        &&& self.dead_air_threshold_ms is None
        &&& self.rtp_stats_interval_ms is None
        &&& self.tls is None
    }
}

impl Default for RawRouteFile {
    fn default() -> (r: Self)
        ensures
            r.routes@ == Seq::<RawRoute>::empty(),
    {
        RawRouteFile { routes: Vec::new() }
    }
}

impl Default for RawRouteMatch {
    fn default() -> (r: Self)
        ensures
            !r.any,
            !r.regex,
            !r.has_predicates(),
    {
        RawRouteMatch {
            any: false,
            regex: false,
            request_uri_user: None,
            request_uri_host: None,
            to_user: None,
            to_host: None,
            from_user: None,
            from_host: None,
            register_source: None,
            peer_cert_san: None,
            header: Vec::new(),
        }
    }
}

impl Default for BargeInOverride {
    fn default() -> (r: Self)
        ensures
            r.inherits(),
    {
        BargeInOverride { enabled: None, mode: None, debounce_ms: None }
    }
}

impl Default for BridgeOverride {
    fn default() -> (r: Self)
        ensures
            r.inherits(),
    {
        BridgeOverride {
            ws_url: None,
            ws_auth_header: None,
            audio_direction: None,
            on_ws_failure: None,
            ws_connect_timeout_ms: None,
            barge_in: BargeInOverride::default(),
            silence_threshold_ms: None,
            dead_air_threshold_ms: None,
            rtp_stats_interval_ms: None,
            tls: None,
        }
    }
}

impl Default for MediaOverride {
    fn default() -> (r: Self)
        ensures
            r.codecs is None,
            r.dtmf is None,
            r.inactivity_timeout_secs is None,
            r.rtp_port_range is None,
            r.srtp is None,
    {
        MediaOverride {
            codecs: None,
            dtmf: None,
            inactivity_timeout_secs: None,
            rtp_port_range: None,
            srtp: None,
        }
    }
}

impl Default for SecurityOverride {
    fn default() -> (r: Self)
        ensures
            r.min_attestation is None,
    {
        SecurityOverride { min_attestation: None }
    }
}

impl Default for RecordingOverride {
    fn default() -> (r: Self)
        ensures
            r.mode is None,
    {
        RecordingOverride { mode: None }
    }
}

} // verus!
