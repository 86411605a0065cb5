//! Metric names, descriptions and histogram buckets.
//!
//! Every metric is prefixed `siphon_ai_`. Names are constants, so consumers refer
//! to them by symbol. Every name is listed in [`ALL_COUNTERS`], [`ALL_GAUGES`] or
//! [`ALL_HISTOGRAMS`], every listed metric is described, and every histogram has
//! explicit buckets: the contracts below say so.
//!
//! No metric is labelled by call id; route names and termination causes are small
//! sets.
use vstd::prelude::*;

use metrics::{Key, Level, Metadata, Unit};

use crate::text::has_prefix;

verus! {

/// Inbound INVITEs by result (accepted, rejected, rejected_attestation,
/// no_match).
pub const INVITES_TOTAL: &'static str = "siphon_ai_invites_total";

/// Completed calls by termination cause (caller_hangup, server_hangup,
/// local_shutdown, drain_forced, bridge_ended, ws_disconnect, tap_ended,
/// transfer).
pub const CALLS_TOTAL: &'static str = "siphon_ai_calls_total";

/// Calls accepted by matched route name.
pub const ROUTE_MATCH_TOTAL: &'static str = "siphon_ai_route_match_total";

/// STIR/SHAKEN verification outcomes by result (passed, failed, unsigned).
pub const VERSTAT_TOTAL: &'static str = "siphon_ai_verstat_total";

/// Call recordings by result (ok, degraded, failed, blocked).
pub const RECORDINGS_TOTAL: &'static str = "siphon_ai_recordings_total";

/// Recording uploads to object storage by result (ok, failed, dropped).
pub const RECORDING_UPLOADS_TOTAL: &'static str = "siphon_ai_recording_uploads_total";

/// Inbound SIP packets/frames dropped by the per-source-IP ingress rate limit,
/// by transport. Sits below [sip.admission] and applies even when admission
/// control is off.
pub const SIP_RATE_LIMITED_TOTAL: &'static str = "siphon_ai_sip_rate_limited_total";

/// HEP3 packets written to the wire (wire-level success only; an unreachable
/// collector is not counted here — see the throttled hep_rs::udp WARN).
pub const HEP_PACKETS_SENT_TOTAL: &'static str = "siphon_ai_hep_packets_sent_total";

/// HEP3 packets dropped before the wire, by reason (queue_full).
pub const HEP_PACKETS_DROPPED_TOTAL: &'static str = "siphon_ai_hep_packets_dropped_total";

/// REGISTER attempts by [[register]].name and outcome.
pub const REGISTER_ATTEMPTS_TOTAL: &'static str = "siphon_ai_register_attempts_total";

/// Outbound calls placed, by result (answered, busy, declined, no_answer,
/// rejected, unreachable, failed).
pub const OUTBOUND_CALLS_TOTAL: &'static str = "siphon_ai_outbound_calls_total";

/// Outbound SRTP (SDES) outcomes for answered calls, by result (encrypted,
/// downgraded).
pub const OUTBOUND_SRTP_TOTAL: &'static str = "siphon_ai_outbound_srtp_total";

/// Authenticated admin API requests, by endpoint (route template), role, and
/// result (ok, unauthenticated, forbidden, not_found, error).
pub const ADMIN_REQUESTS_TOTAL: &'static str = "siphon_ai_admin_requests_total";

/// /metrics scrape outcomes when the bearer gate is configured (ok,
/// unauthenticated).
pub const METRICS_REQUESTS_TOTAL: &'static str = "siphon_ai_metrics_requests_total";

/// warn/error tracing events captured into the recent-errors ring (GET
/// /admin/v1/errors), by level (warn, error).
pub const ERROR_RING_CAPTURED_TOTAL: &'static str = "siphon_ai_error_ring_captured_total";

/// SIP messages offered to the per-call ladder ring (GET
/// /admin/v1/calls/{id}/sip), by result (captured, dropped_call_cap,
/// dropped_trace_cap).
pub const SIP_RING_MESSAGES_TOTAL: &'static str = "siphon_ai_sip_ring_messages_total";

/// SIP dialogs currently held by the per-call ladder ring (live calls, retained
/// completed calls, and non-call dialogs such as REGISTER).
pub const SIP_RING_TRACES: &'static str = "siphon_ai_sip_ring_traces";

/// WS-failure prompt playbacks by result (played, cut_short, unusable,
/// timeout).
pub const WS_FAILURE_PROMPTS_TOTAL: &'static str = "siphon_ai_ws_failure_prompts_total";

/// Operator registration triggers accepted by the admin API, by name and action
/// (refresh, restart).
pub const REGISTER_ADMIN_TRIGGERS_TOTAL: &'static str = "siphon_ai_register_admin_triggers_total";

/// Inbound delayed-offer (offerless INVITE) outcomes, by result (answered,
/// ack_timeout, missing_sdp_answer, invalid_sdp_answer, no_compatible_codec,
/// invalid_remote_media, caller_hangup).
pub const DELAYED_OFFER_TOTAL: &'static str = "siphon_ai_delayed_offer_total";

/// Outbound delayed-offer (offerless INVITE) negotiation outcomes, by result
/// (answered, srtp_policy, srtp_setup, invalid_remote_media, media_activate,
/// missing_sdp_offer).
pub const OUTBOUND_DELAYED_OFFER_TOTAL: &'static str = "siphon_ai_outbound_delayed_offer_total";

/// Caller-leg 20 ms frames dropped because the answered direction
/// (recvonly/inactive, peer hold) forbade our send (#417).
pub const PEER_HOLD_TX_SUPPRESSED_FRAMES_TOTAL: &'static str = "siphon_ai_peer_hold_tx_suppressed_frames_total";

/// REFER transfers attempted, by mode (blind, attended) and result (accepted,
/// rejected, local_error).
pub const TRANSFERS_TOTAL: &'static str = "siphon_ai_transfers_total";

/// Conference joins attempted, by result (joined, disabled, too_many_rooms,
/// room_full, rate_mismatch, already_joined, error).
pub const CONFERENCE_JOINS_TOTAL: &'static str = "siphon_ai_conference_joins_total";

/// 20 ms frames a conference room dropped instead of blocking, by stage (input,
/// sink) and side (sip, ws).
pub const ROOM_FRAMES_DROPPED_TOTAL: &'static str = "siphon_ai_room_frames_dropped_total";

/// Calls parked, by result (ok, rejected).
pub const PARKS_TOTAL: &'static str = "siphon_ai_parks_total";

/// Parked calls retrieved, by result (ok, not_parked).
pub const RETRIEVES_TOTAL: &'static str = "siphon_ai_retrieves_total";

/// Bot-initiated hold/resume re-INVITEs, by result (ok, failed).
pub const HOLDS_TOTAL: &'static str = "siphon_ai_holds_total";

/// WS reconnect episodes mid-call, by result (recovered, exhausted).
pub const WS_RECONNECTS_TOTAL: &'static str = "siphon_ai_ws_reconnects_total";

/// SIGHUP config reloads by result (applied, no_change, failed).
pub const CONFIG_RELOADS_TOTAL: &'static str = "siphon_ai_config_reloads_total";

/// Calls force-terminated (BYE + WS hangup) at the graceful-shutdown drain
/// deadline.
pub const CALLS_DRAIN_FORCED_TOTAL: &'static str = "siphon_ai_calls_drain_forced_total";

/// Outbound deliveries by sink (lifecycle, cdr, audit, quality) and result
/// (delivered, rejected, dropped, spooled).
pub const WEBHOOK_DELIVERIES_TOTAL: &'static str = "siphon_ai_webhook_deliveries_total";

/// Individual outbound delivery attempts by sink and outcome (ok, transient,
/// error, rejected).
pub const WEBHOOK_DELIVERY_ATTEMPTS_TOTAL: &'static str = "siphon_ai_webhook_delivery_attempts_total";

/// Inbound digest-auth outcomes per challenged INVITE, by result (ok,
/// challenged, failed, stale).
pub const SIP_AUTH_TOTAL: &'static str = "siphon_ai_sip_auth_total";

/// Inbound INVITE admission decisions, by result (accepted, rate_limited,
/// dropped).
pub const INVITE_ADMISSION_TOTAL: &'static str = "siphon_ai_invite_admission_total";

/// Inbound NOTIFYs answered, by result (accepted, ignored, bad_event,
/// bad_request).
pub const NOTIFY_TOTAL: &'static str = "siphon_ai_notify_total";

/// RFC 4028 session refreshes sent on outbound legs, by result (ok, rejected,
/// failed).
pub const SESSION_REFRESH_TOTAL: &'static str = "siphon_ai_session_refresh_total";

/// Outbound session-refresh loops that gave up while the call was still up, by
/// reason (dialog_gone, exhausted, unresolvable).
pub const SESSION_REFRESH_STOPPED_TOTAL: &'static str = "siphon_ai_session_refresh_stopped_total";

/// Quality-history records emitted through the [quality] sinks, by kind
/// (interval, final).
pub const QUALITY_RECORDS_TOTAL: &'static str = "siphon_ai_quality_records_total";

/// Times silence_detected fired on the WS bridge
/// ([bridge].silence_threshold_ms).
pub const SILENCE_EVENTS_TOTAL: &'static str = "siphon_ai_silence_events_total";

/// Times dead_air_detected fired on the WS bridge
/// ([bridge].dead_air_threshold_ms).
pub const DEAD_AIR_EVENTS_TOTAL: &'static str = "siphon_ai_dead_air_events_total";

/// Pause-mode barge-in arbitration resolutions by outcome (confirmed, rejected,
/// timeout).
pub const BARGE_IN_DECISIONS_TOTAL: &'static str = "siphon_ai_barge_in_decisions_total";

/// SIGHUP SIP/TLS cert-reload attempts, by outcome (ok, failed — previous cert
/// kept).
pub const SIP_TLS_RELOAD_ATTEMPTS_TOTAL: &'static str = "siphon_ai_sip_tls_reload_attempts_total";

/// SIGHUP [admin.tls] cert-reload attempts, by outcome (ok, failed — previous
/// cert kept).
pub const ADMIN_TLS_RELOAD_ATTEMPTS_TOTAL: &'static str = "siphon_ai_admin_tls_reload_attempts_total";

/// Currently-running per-call controllers.
pub const CALLS_ACTIVE: &'static str = "siphon_ai_calls_active";

/// SIP dialogs held in the shared DialogManager. Tracks calls_active, lagging
/// it by the reaper grace window; unbounded growth is issue #458.
pub const DIALOGS_ACTIVE: &'static str = "siphon_ai_dialogs_active";

/// In-flight outbound calls (admitted but not yet settled).
pub const OUTBOUND_CALLS_ACTIVE: &'static str = "siphon_ai_outbound_calls_active";

/// Per-[[register]] status. 1 = current state for that name; 0 = other states.
pub const REGISTER_STATE: &'static str = "siphon_ai_register_state";

/// Live conference rooms.
pub const CONFERENCES_ACTIVE: &'static str = "siphon_ai_conferences_active";

/// Mixer participants across all rooms (2 per member call: SIP leg + WS
/// session).
pub const CONFERENCE_PARTICIPANTS: &'static str = "siphon_ai_conference_participants";

/// Currently-parked calls.
pub const PARKED_CALLS_ACTIVE: &'static str = "siphon_ai_parked_calls_active";

/// 1 while the daemon is draining for shutdown (new INVITEs 503'd, /ready
/// false); 0 otherwise.
pub const DRAINING: &'static str = "siphon_ai_draining";

/// Deliveries waiting in the durable spool, by sink (lifecycle, cdr, audit,
/// quality).
pub const WEBHOOK_SPOOL_DEPTH: &'static str = "siphon_ai_webhook_spool_depth";

/// Recording uploads waiting in the durable spool.
pub const RECORDING_UPLOAD_SPOOL_DEPTH: &'static str = "siphon_ai_recording_upload_spool_depth";

/// Distinct source IPs currently tracked by per-source INVITE admission.
pub const INVITE_ADMISSION_SOURCES: &'static str = "siphon_ai_invite_admission_sources";

/// Time to complete the WS bridge handshake and send `start`.
pub const WS_CONNECT_SECONDS: &'static str = "siphon_ai_ws_connect_seconds";

/// Wall-time of one successful recording upload to object storage.
pub const RECORDING_UPLOAD_SECONDS: &'static str = "siphon_ai_recording_upload_seconds";

/// Time inside MediaSetup::accept_inbound (SDP + port + tap).
pub const SDP_NEGOTIATE_SECONDS: &'static str = "siphon_ai_sdp_negotiate_seconds";

/// End-to-end call duration.
pub const CALL_DURATION_SECONDS: &'static str = "siphon_ai_call_duration_seconds";

/// RTCP-derived round-trip time (ms) per received Receiver Report (RFC 3550
/// §A.7).
pub const RTP_RTT_MS: &'static str = "siphon_ai_rtp_rtt_ms";

/// How far past its 20 ms cadence a conference room's mix tick fired.
pub const ROOM_TICK_LAG_SECONDS: &'static str = "siphon_ai_room_tick_lag_seconds";

/// Time the shutdown drain took (drain start to registry empty or deadline).
pub const DRAIN_SECONDS: &'static str = "siphon_ai_drain_seconds";

/// Pause-mode barge-in arbitration latency: armed on speech_started, resolved
/// by verdict/timeout/preemption.
pub const BARGE_IN_DECISION_SECONDS: &'static str = "siphon_ai_barge_in_decision_seconds";

/// Outbound WS audio frames dropped (oldest-first) by the 200 ms playout window
/// (PROTOCOL.md section 5.5).
pub const OUTBOUND_AUDIO_FRAMES_DROPPED_TOTAL: &'static str = "siphon_ai_outbound_audio_frames_dropped_total";

/// Outbound webhook/CDR delivery latency (accepted to 2xx), by sink.
pub const WEBHOOK_DELIVERY_SECONDS: &'static str = "siphon_ai_webhook_delivery_seconds";

/// Remote-reported RTP jitter (ms), sampled on every rtp_stats emission.
pub const RTP_JITTER_MS: &'static str = "siphon_ai_rtp_jitter_ms";

/// Locally-measured interarrival jitter (ms, RFC 3550 6.4.1) on the caller-to-
/// SiphonAI stream.
pub const RTP_RX_JITTER_MS: &'static str = "siphon_ai_rtp_rx_jitter_ms";

/// Packet-loss ratio (0.0-1.0), sampled on every rtp_stats emission.
pub const RTP_PACKET_LOSS_RATIO: &'static str = "siphon_ai_rtp_packet_loss_ratio";

/// Transport-only MOS-CQE estimate (1.0-5.0) from local RX jitter/loss + RTCP
/// RTT.
pub const RTP_MOS_ESTIMATE: &'static str = "siphon_ai_rtp_mos_estimate";

/// Trace spans dropped because an export failed, by reason (collector_down).
pub const OTLP_SPANS_DROPPED_TOTAL: &'static str = "siphon_ai_otlp_spans_dropped_total";

/// Log records dropped because an export failed, by reason (collector_down).
pub const OTLP_LOG_RECORDS_DROPPED_TOTAL: &'static str = "siphon_ai_otlp_log_records_dropped_total";

/// 1 while the last export to the OTLP collector succeeded; 0 after a failed
/// one.
pub const OTLP_COLLECTOR_UP: &'static str = "siphon_ai_otlp_collector_up";

/// Every counter there is.
pub const ALL_COUNTERS: [&'static str; 46] = [
    INVITES_TOTAL,
    CALLS_TOTAL,
    CALLS_DRAIN_FORCED_TOTAL,
    ROUTE_MATCH_TOTAL,
    VERSTAT_TOTAL,
    RECORDINGS_TOTAL,
    RECORDING_UPLOADS_TOTAL,
    SIP_RATE_LIMITED_TOTAL,
    HEP_PACKETS_SENT_TOTAL,
    HEP_PACKETS_DROPPED_TOTAL,
    REGISTER_ATTEMPTS_TOTAL,
    REGISTER_ADMIN_TRIGGERS_TOTAL,
    OUTBOUND_CALLS_TOTAL,
    OUTBOUND_SRTP_TOTAL,
    ADMIN_REQUESTS_TOTAL,
    METRICS_REQUESTS_TOTAL,
    ERROR_RING_CAPTURED_TOTAL,
    SIP_RING_MESSAGES_TOTAL,
    WS_FAILURE_PROMPTS_TOTAL,
    DELAYED_OFFER_TOTAL,
    OUTBOUND_DELAYED_OFFER_TOTAL,
    PEER_HOLD_TX_SUPPRESSED_FRAMES_TOTAL,
    OUTBOUND_AUDIO_FRAMES_DROPPED_TOTAL,
    TRANSFERS_TOTAL,
    CONFERENCE_JOINS_TOTAL,
    ROOM_FRAMES_DROPPED_TOTAL,
    PARKS_TOTAL,
    RETRIEVES_TOTAL,
    HOLDS_TOTAL,
    WS_RECONNECTS_TOTAL,
    CONFIG_RELOADS_TOTAL,
    WEBHOOK_DELIVERIES_TOTAL,
    WEBHOOK_DELIVERY_ATTEMPTS_TOTAL,
    SIP_AUTH_TOTAL,
    INVITE_ADMISSION_TOTAL,
    NOTIFY_TOTAL,
    SESSION_REFRESH_TOTAL,
    SESSION_REFRESH_STOPPED_TOTAL,
    QUALITY_RECORDS_TOTAL,
    SILENCE_EVENTS_TOTAL,
    DEAD_AIR_EVENTS_TOTAL,
    BARGE_IN_DECISIONS_TOTAL,
    SIP_TLS_RELOAD_ATTEMPTS_TOTAL,
    ADMIN_TLS_RELOAD_ATTEMPTS_TOTAL,
    OTLP_SPANS_DROPPED_TOTAL,
    OTLP_LOG_RECORDS_DROPPED_TOTAL,
];

/// Every gauge there is.
pub const ALL_GAUGES: [&'static str; 13] = [
    CALLS_ACTIVE,
    DIALOGS_ACTIVE,
    OUTBOUND_CALLS_ACTIVE,
    REGISTER_STATE,
    CONFERENCES_ACTIVE,
    SIP_RING_TRACES,
    CONFERENCE_PARTICIPANTS,
    PARKED_CALLS_ACTIVE,
    DRAINING,
    WEBHOOK_SPOOL_DEPTH,
    RECORDING_UPLOAD_SPOOL_DEPTH,
    INVITE_ADMISSION_SOURCES,
    OTLP_COLLECTOR_UP,
];

/// Every histogram there is.
pub const ALL_HISTOGRAMS: [&'static str; 13] = [
    WS_CONNECT_SECONDS,
    SDP_NEGOTIATE_SECONDS,
    CALL_DURATION_SECONDS,
    RECORDING_UPLOAD_SECONDS,
    RTP_RTT_MS,
    RTP_JITTER_MS,
    RTP_RX_JITTER_MS,
    RTP_PACKET_LOSS_RATIO,
    RTP_MOS_ESTIMATE,
    ROOM_TICK_LAG_SECONDS,
    DRAIN_SECONDS,
    BARGE_IN_DECISION_SECONDS,
    WEBHOOK_DELIVERY_SECONDS,
];

/// The help text of each counter, in the order of [`ALL_COUNTERS`].
pub const COUNTER_HELP: [&'static str; 46] = [
    "Inbound INVITEs by result (accepted, rejected, rejected_attestation, no_match).",
    "Completed calls by termination cause (caller_hangup, server_hangup, local_shutdown, drain_forced, bridge_ended, ws_disconnect, tap_ended, transfer).",
    "Calls force-terminated (BYE + WS hangup) at the graceful-shutdown drain deadline.",
    "Calls accepted by matched route name.",
    "STIR/SHAKEN verification outcomes by result (passed, failed, unsigned).",
    "Call recordings by result (ok, degraded, failed, blocked).",
    "Recording uploads to object storage by result (ok, failed, dropped).",
    "Inbound SIP packets/frames dropped by the per-source-IP ingress rate limit, by transport. Sits below [sip.admission] and applies even when admission control is off.",
    "HEP3 packets written to the wire (wire-level success only; an unreachable collector is not counted here — see the throttled hep_rs::udp WARN).",
    "HEP3 packets dropped before the wire, by reason (queue_full).",
    "REGISTER attempts by [[register]].name and outcome.",
    "Operator registration triggers accepted by the admin API, by name and action (refresh, restart).",
    "Outbound calls placed, by result (answered, busy, declined, no_answer, rejected, unreachable, failed).",
    "Outbound SRTP (SDES) outcomes for answered calls, by result (encrypted, downgraded).",
    "Authenticated admin API requests, by endpoint (route template), role, and result (ok, unauthenticated, forbidden, not_found, error).",
    "/metrics scrape outcomes when the bearer gate is configured (ok, unauthenticated).",
    "warn/error tracing events captured into the recent-errors ring (GET /admin/v1/errors), by level (warn, error).",
    "SIP messages offered to the per-call ladder ring (GET /admin/v1/calls/{id}/sip), by result (captured, dropped_call_cap, dropped_trace_cap).",
    "WS-failure prompt playbacks by result (played, cut_short, unusable, timeout).",
    "Inbound delayed-offer (offerless INVITE) outcomes, by result (answered, ack_timeout, missing_sdp_answer, invalid_sdp_answer, no_compatible_codec, invalid_remote_media, caller_hangup).",
    "Outbound delayed-offer (offerless INVITE) negotiation outcomes, by result (answered, srtp_policy, srtp_setup, invalid_remote_media, media_activate, missing_sdp_offer).",
    "Caller-leg 20 ms frames dropped because the answered direction (recvonly/inactive, peer hold) forbade our send (#417).",
    "Outbound WS audio frames dropped (oldest-first) by the 200 ms playout window (PROTOCOL.md \u{a7}5.5).",
    "REFER transfers attempted, by mode (blind, attended) and result (accepted, rejected, local_error).",
    "Conference joins attempted, by result (joined, disabled, too_many_rooms, room_full, rate_mismatch, already_joined, error).",
    "20 ms frames a conference room dropped instead of blocking, by stage (input, sink) and side (sip, ws).",
    "Calls parked, by result (ok, rejected).",
    "Parked calls retrieved, by result (ok, not_parked).",
    "Bot-initiated hold/resume re-INVITEs, by result (ok, failed).",
    "WS reconnect episodes mid-call, by result (recovered, exhausted).",
    "SIGHUP config reloads by result (applied, no_change, failed).",
    "Outbound deliveries by sink (lifecycle, cdr, audit, quality) and result (delivered, rejected, dropped, spooled).",
    "Individual outbound delivery attempts by sink and outcome (ok, transient, error, rejected).",
    "Inbound digest-auth outcomes per challenged INVITE, by result (ok, challenged, failed, stale).",
    "Inbound INVITE admission decisions, by result (accepted, rate_limited, dropped).",
    "Inbound NOTIFYs answered, by result (accepted, ignored, bad_event, bad_request).",
    "RFC 4028 session refreshes sent on outbound legs, by result (ok, rejected, failed).",
    "Outbound session-refresh loops that gave up while the call was still up, by reason (dialog_gone, exhausted, unresolvable).",
    "Quality-history records emitted through the [quality] sinks, by kind (interval, final).",
    "Times silence_detected fired on the WS bridge ([bridge].silence_threshold_ms).",
    "Times dead_air_detected fired on the WS bridge ([bridge].dead_air_threshold_ms).",
    "Pause-mode barge-in arbitration resolutions by outcome (confirmed, rejected, timeout).",
    "SIGHUP SIP/TLS cert-reload attempts, by outcome (ok, failed — previous cert kept).",
    "SIGHUP [admin.tls] cert-reload attempts, by outcome (ok, failed — previous cert kept).",
    "Trace spans dropped because an export failed, by reason (collector_down).",
    "Log records dropped because an export failed, by reason (collector_down).",
];

/// The help text of each gauge, in the order of [`ALL_GAUGES`].
pub const GAUGE_HELP: [&'static str; 13] = [
    "Currently-running per-call controllers.",
    "SIP dialogs held in the shared DialogManager. Tracks calls_active, lagging it by the reaper grace window; unbounded growth is issue #458.",
    "In-flight outbound calls (admitted but not yet settled).",
    "Per-[[register]] status. 1 = current state for that name; 0 = other states.",
    "Live conference rooms.",
    "SIP dialogs currently held by the per-call ladder ring (live calls, retained completed calls, and non-call dialogs such as REGISTER).",
    "Mixer participants across all rooms (2 per member call: SIP leg + WS session).",
    "Currently-parked calls.",
    "1 while the daemon is draining for shutdown (new INVITEs 503'd, /ready false); 0 otherwise.",
    "Deliveries waiting in the durable spool, by sink (lifecycle, cdr, audit, quality).",
    "Recording uploads waiting in the durable spool.",
    "Distinct source IPs currently tracked by per-source INVITE admission.",
    "1 while the last export to the OTLP collector succeeded; 0 after a failed one.",
];

/// The help text of each histogram, in the order of [`ALL_HISTOGRAMS`].
pub const HISTOGRAM_HELP: [&'static str; 13] = [
    "Time to complete the WS bridge handshake and send `start`.",
    "Time inside MediaSetup::accept_inbound (SDP + port + tap).",
    "End-to-end call duration.",
    "Wall-time of one successful recording upload to object storage.",
    "RTCP-derived round-trip time (ms) per received Receiver Report (RFC 3550 §A.7).",
    "Remote-reported RTP jitter (ms), sampled on every rtp_stats emission.",
    "Locally-measured interarrival jitter (ms, RFC 3550 6.4.1) on the caller-to-SiphonAI stream.",
    "Packet-loss ratio (0.0-1.0), sampled on every rtp_stats emission.",
    "Transport-only MOS-CQE estimate (1.0-5.0) from local RX jitter/loss + RTCP RTT.",
    "How far past its 20 ms cadence a conference room's mix tick fired.",
    "Time the shutdown drain took (drain start to registry empty or deadline).",
    "Pause-mode barge-in arbitration latency: armed on speech_started, resolved by verdict/timeout/preemption.",
    "Outbound webhook/CDR delivery latency (accepted to 2xx), by sink.",
];

/// Unit of a described metric.
#[derive(Debug, Clone, Copy, PartialEq, Eq, Structural)]
pub enum MetricUnit {
    Unspecified,
    Count,
    Seconds,
    Milliseconds,
}

/// Kind of a metric.
#[derive(Debug, Clone, Copy, PartialEq, Eq, Structural)]
pub enum MetricKind {
    Counter,
    Gauge,
    Histogram,
}

/// The unit of each gauge, in the order of [`ALL_GAUGES`].
pub const GAUGE_UNITS: [MetricUnit; 13] = [
    MetricUnit::Count,
    MetricUnit::Unspecified,
    MetricUnit::Count,
    MetricUnit::Count,
    MetricUnit::Count,
    MetricUnit::Count,
    MetricUnit::Count,
    MetricUnit::Count,
    MetricUnit::Count,
    MetricUnit::Count,
    MetricUnit::Count,
    MetricUnit::Count,
    MetricUnit::Unspecified,
];

/// The unit of each histogram, in the order of [`ALL_HISTOGRAMS`].
pub const HISTOGRAM_UNITS: [MetricUnit; 13] = [
    MetricUnit::Seconds,
    MetricUnit::Seconds,
    MetricUnit::Seconds,
    MetricUnit::Seconds,
    MetricUnit::Milliseconds,
    MetricUnit::Milliseconds,
    MetricUnit::Milliseconds,
    MetricUnit::Unspecified,
    MetricUnit::Unspecified,
    MetricUnit::Seconds,
    MetricUnit::Seconds,
    MetricUnit::Seconds,
    MetricUnit::Seconds,
];

// Bucket boundaries are whole numbers of ten-thousandths of the metric's unit.

/// Buckets of `ws_connect_seconds`: 25 ms catches a healthy handshake, 30 s a hung one.
pub const WS_CONNECT_BUCKETS: [u64; 9] = [250, 500, 1000, 2500, 5000, 10000, 25000, 50000, 300000];

/// Buckets of `sdp_negotiate_seconds`: pure CPU work, 100 us to 200 ms.
pub const SDP_NEGOTIATE_BUCKETS: [u64; 8] = [1, 5, 10, 50, 100, 500, 1000, 2000];

/// Buckets of `call_duration_seconds`: one second to four hours.
pub const CALL_DURATION_BUCKETS: [u64; 10] = [10000, 50000, 150000, 300000, 600000, 1800000, 6000000, 18000000, 36000000, 144000000];

/// Buckets of `rtp_rtt_ms`: regional paths at the bottom, the pathological tail at the top.
pub const RTP_RTT_MS_BUCKETS: [u64; 11] = [100000, 200000, 300000, 500000, 750000, 1000000, 1500000, 2000000, 3000000, 5000000, 10000000];

/// Buckets of `room_tick_lag_seconds`: one missed frame is 20 ms.
pub const ROOM_TICK_LAG_BUCKETS: [u64; 9] = [5, 10, 20, 50, 100, 200, 500, 1000, 2500];

/// Buckets of `webhook_delivery_seconds`: a healthy receiver to one that needed retries.
pub const WEBHOOK_DELIVERY_BUCKETS: [u64; 10] = [50, 250, 1000, 2500, 5000, 10000, 25000, 50000, 100000, 300000];

/// Buckets of `drain_seconds`: up to the common grace periods.
pub const DRAIN_BUCKETS: [u64; 9] = [1000, 5000, 10000, 50000, 150000, 300000, 600000, 900000, 1200000];

/// Buckets of `recording_upload_seconds`: a small local upload to a large remote one.
pub const RECORDING_UPLOAD_BUCKETS: [u64; 9] = [500, 1000, 2500, 5000, 10000, 50000, 150000, 600000, 3000000];

/// Buckets of `barge_in_decision_seconds`: bounded by the decision window.
pub const BARGE_IN_DECISION_BUCKETS: [u64; 9] = [500, 1000, 2000, 3000, 5000, 7500, 10000, 25000, 50000];

/// Buckets of `rtp_jitter_ms` and `rtp_rx_jitter_ms`: the same quantity from both ends.
pub const RTP_JITTER_MS_BUCKETS: [u64; 10] = [10000, 20000, 50000, 100000, 200000, 300000, 500000, 1000000, 2000000, 5000000];

/// Buckets of `rtp_packet_loss_ratio`: a fraction, closed at one.
pub const RTP_PACKET_LOSS_RATIO_BUCKETS: [u64; 9] = [10, 50, 100, 200, 500, 1000, 2000, 5000, 10000];

/// Buckets of `rtp_mos_estimate`: a boundary at each quality band.
pub const RTP_MOS_ESTIMATE_BUCKETS: [u64; 8] = [15000, 20000, 26000, 31000, 36000, 40000, 44000, 50000];

/// One metric's description.
#[derive(Debug, Clone, Copy)]
pub struct MetricDescription {
    pub kind: MetricKind,
    pub name: &'static str,
    pub unit: MetricUnit,
    pub help: &'static str,
}

/// The description of the counter at `i`.
pub open spec fn counter_description(i: int) -> MetricDescription {
    MetricDescription {
        kind: MetricKind::Counter,
        name: ALL_COUNTERS@[i],
        unit: MetricUnit::Unspecified,
        help: COUNTER_HELP@[i],
    }
}

/// The description of the gauge at `i`.
pub open spec fn gauge_description(i: int) -> MetricDescription {
    MetricDescription {
        kind: MetricKind::Gauge,
        name: ALL_GAUGES@[i],
        unit: GAUGE_UNITS@[i],
        help: GAUGE_HELP@[i],
    }
}

/// The description of the histogram at `i`.
pub open spec fn histogram_description(i: int) -> MetricDescription {
    MetricDescription {
        kind: MetricKind::Histogram,
        name: ALL_HISTOGRAMS@[i],
        unit: HISTOGRAM_UNITS@[i],
        help: HISTOGRAM_HELP@[i],
    }
}

/// Every description: counters, then gauges, then histograms, each in list order.
pub open spec fn all_descriptions() -> Seq<MetricDescription> {
    Seq::new(46, |i: int| counter_description(i)) + Seq::new(13, |i: int| gauge_description(i))
        + Seq::new(13, |i: int| histogram_description(i))
}

/// The description of every metric there is.
pub fn descriptions() -> (r: Vec<MetricDescription>)
    ensures
        r@ == all_descriptions(),
{
    let mut r: Vec<MetricDescription> = Vec::new();
    let mut i: usize = 0;
    while i < 46
        invariant
            i <= 46,
            r@ == Seq::new(i as nat, |k: int| counter_description(k)),
        decreases 46 - i,
    {
        r.push(
            MetricDescription {
                kind: MetricKind::Counter,
                name: ALL_COUNTERS[i],
                unit: MetricUnit::Unspecified,
                help: COUNTER_HELP[i],
            },
        );
        i += 1;
        assert(r@ =~= Seq::new(i as nat, |k: int| counter_description(k)));
    }
    let ghost counters = r@;
    let mut j: usize = 0;
    assert(r@ =~= counters + Seq::new(0, |k: int| gauge_description(k)));
    while j < 13
        invariant
            j <= 13,
            r@ == counters + Seq::new(j as nat, |k: int| gauge_description(k)),
        decreases 13 - j,
    {
        r.push(
            MetricDescription {
                kind: MetricKind::Gauge,
                name: ALL_GAUGES[j],
                unit: GAUGE_UNITS[j],
                help: GAUGE_HELP[j],
            },
        );
        j += 1;
        assert(r@ =~= counters + Seq::new(j as nat, |k: int| gauge_description(k)));
    }
    let ghost gauges = r@;
    let mut k: usize = 0;
    assert(r@ =~= gauges + Seq::new(0, |n: int| histogram_description(n)));
    while k < 13
        invariant
            k <= 13,
            r@ == gauges + Seq::new(k as nat, |n: int| histogram_description(n)),
        decreases 13 - k,
    {
        r.push(
            MetricDescription {
                kind: MetricKind::Histogram,
                name: ALL_HISTOGRAMS[k],
                unit: HISTOGRAM_UNITS[k],
                help: HISTOGRAM_HELP[k],
            },
        );
        k += 1;
        assert(r@ =~= gauges + Seq::new(k as nat, |n: int| histogram_description(n)));
    }
    r
}

/// `Recorder::describe_counter` on the `metrics` facade's current recorder. What the
/// recorder does with the text is its own: nothing is stated.
#[verifier::external_body]
fn describe_counter(name: &'static str, help: &'static str) {
    metrics::with_recorder(|r| r.describe_counter(name.into(), None, help.into()))
}

/// `Recorder::describe_gauge` on the current recorder; nothing is stated.
#[verifier::external_body]
fn describe_gauge(name: &'static str, unit: MetricUnit, help: &'static str) {
    let unit = match unit {
        MetricUnit::Unspecified => None,
        MetricUnit::Count => Some(Unit::Count),
        MetricUnit::Seconds => Some(Unit::Seconds),
        MetricUnit::Milliseconds => Some(Unit::Milliseconds),
    };
    metrics::with_recorder(|r| r.describe_gauge(name.into(), unit, help.into()))
}

/// `Recorder::describe_histogram` on the current recorder; nothing is stated.
#[verifier::external_body]
fn describe_histogram(name: &'static str, unit: MetricUnit, help: &'static str) {
    let unit = match unit {
        MetricUnit::Unspecified => None,
        MetricUnit::Count => Some(Unit::Count),
        MetricUnit::Seconds => Some(Unit::Seconds),
        MetricUnit::Milliseconds => Some(Unit::Milliseconds),
    };
    metrics::with_recorder(|r| r.describe_histogram(name.into(), unit, help.into()))
}

/// `Recorder::register_counter` on the current recorder, then `Counter::absolute`:
/// sets an unlabelled counter. What the recorder does with it is its own: nothing
/// is stated.
#[verifier::external_body]
fn set_counter(name: &'static str, value: u64) {
    let meta = Metadata::new("siphon_ai", Level::INFO, None);
    let counter = metrics::with_recorder(|r| r.register_counter(&Key::from_name(name), &meta));
    counter.absolute(value)
}

/// The recorder is told of the metric, by its kind, with its name, unit and text.
pub closed spec fn described(d: MetricDescription) -> bool {
    match d.kind {
        MetricKind::Counter => call_ensures(describe_counter, (d.name, d.help), ()),
        MetricKind::Gauge => call_ensures(describe_gauge, (d.name, d.unit, d.help), ()),
        MetricKind::Histogram => call_ensures(describe_histogram, (d.name, d.unit, d.help), ()),
    }
}

/// The recorder is told that the unlabelled counter `name` stands at `value`.
pub closed spec fn counter_set(name: &'static str, value: u64) -> bool {
    call_ensures(set_counter, (name, value), ())
}

/// Register the help text of every metric with the current recorder. Returns what
/// was registered, in order.
pub fn register_descriptions() -> (registered: Vec<MetricDescription>)
    ensures
        registered@ == all_descriptions(),
        forall|k: int| 0 <= k < registered@.len() ==> described(#[trigger] registered@[k]),
{
    let all = descriptions();
    let mut i: usize = 0;
    while i < all.len()
        invariant
            i <= all@.len(),
            forall|k: int| 0 <= k < i ==> described(#[trigger] all@[k]),
        decreases all@.len() - i,
    {
        let d = all[i];
        match d.kind {
            MetricKind::Counter => describe_counter(d.name, d.help),
            MetricKind::Gauge => describe_gauge(d.name, d.unit, d.help),
            MetricKind::Histogram => describe_histogram(d.name, d.unit, d.help),
        }
        i += 1;
    }
    all
}

/// Publish a zero for the unlabelled counters whose healthy value is zero, so that
/// "nothing has gone wrong" can be read instead of inferred. Returns what was
/// published.
pub fn publish_zero_baselines() -> (published: Vec<&'static str>)
    ensures
        published@.len() == 1,
        published@[0]@ == OUTBOUND_AUDIO_FRAMES_DROPPED_TOTAL@,
        counter_set(OUTBOUND_AUDIO_FRAMES_DROPPED_TOTAL, 0),
{
    let mut published: Vec<&'static str> = Vec::new();
    set_counter(OUTBOUND_AUDIO_FRAMES_DROPPED_TOTAL, 0);
    published.push(OUTBOUND_AUDIO_FRAMES_DROPPED_TOTAL);
    published
}

// ---- Buckets ----

/// The bucket boundaries of one histogram.
#[derive(Debug)]
pub struct HistogramBuckets {
    pub name: &'static str,
    /// Ten-thousandths of the metric's unit, ascending.
    pub bounds: Vec<u64>,
}

/// The bucket boundaries of the histogram at `i`.
pub open spec fn bounds_at(i: int) -> Seq<u64> {
    if i == 0 {
        WS_CONNECT_BUCKETS@
    } else if i == 1 {
        SDP_NEGOTIATE_BUCKETS@
    } else if i == 2 {
        CALL_DURATION_BUCKETS@
    } else if i == 3 {
        RECORDING_UPLOAD_BUCKETS@
    } else if i == 4 {
        RTP_RTT_MS_BUCKETS@
    } else if i == 5 {
        RTP_JITTER_MS_BUCKETS@
    } else if i == 6 {
        RTP_JITTER_MS_BUCKETS@
    } else if i == 7 {
        RTP_PACKET_LOSS_RATIO_BUCKETS@
    } else if i == 8 {
        RTP_MOS_ESTIMATE_BUCKETS@
    } else if i == 9 {
        ROOM_TICK_LAG_BUCKETS@
    } else if i == 10 {
        DRAIN_BUCKETS@
    } else if i == 11 {
        BARGE_IN_DECISION_BUCKETS@
    } else {
        WEBHOOK_DELIVERY_BUCKETS@
    }
}

fn copied<const N: usize>(a: [u64; N]) -> (r: Vec<u64>)
    ensures
        r@ == a@,
{
    let mut r: Vec<u64> = Vec::new();
    let mut i: usize = 0;
    while i < N
        invariant
            i <= N,
            r@ == a@.subrange(0, i as int),
        decreases N - i,
    {
        r.push(a[i]);
        i += 1;
        assert(r@ =~= a@.subrange(0, i as int));
    }
    assert(r@ =~= a@);
    r
}

fn bounds_for(i: usize) -> (r: Vec<u64>)
    requires
        i < 13,
    ensures
        r@ == bounds_at(i as int),
{
    match i {
        0 => copied(WS_CONNECT_BUCKETS),
        1 => copied(SDP_NEGOTIATE_BUCKETS),
        2 => copied(CALL_DURATION_BUCKETS),
        3 => copied(RECORDING_UPLOAD_BUCKETS),
        4 => copied(RTP_RTT_MS_BUCKETS),
        5 => copied(RTP_JITTER_MS_BUCKETS),
        6 => copied(RTP_JITTER_MS_BUCKETS),
        7 => copied(RTP_PACKET_LOSS_RATIO_BUCKETS),
        8 => copied(RTP_MOS_ESTIMATE_BUCKETS),
        9 => copied(ROOM_TICK_LAG_BUCKETS),
        10 => copied(DRAIN_BUCKETS),
        11 => copied(BARGE_IN_DECISION_BUCKETS),
        _ => copied(WEBHOOK_DELIVERY_BUCKETS),
    }
}

/// The bucket boundaries of every histogram, in the order of [`ALL_HISTOGRAMS`].
pub fn histogram_buckets() -> (r: Vec<HistogramBuckets>)
    ensures
        r@.len() == 13,
        forall|i: int|
            0 <= i < r@.len() ==> (#[trigger] r@[i]).name == ALL_HISTOGRAMS@[i] && r@[i].bounds@
                == bounds_at(i),
{
    let mut r: Vec<HistogramBuckets> = Vec::new();
    let mut i: usize = 0;
    while i < 13
        invariant
            i <= 13,
            r@.len() == i,
            forall|k: int|
                0 <= k < i ==> (#[trigger] r@[k]).name == ALL_HISTOGRAMS@[k] && r@[k].bounds@
                    == bounds_at(k),
        decreases 13 - i,
    {
        r.push(HistogramBuckets { name: ALL_HISTOGRAMS[i], bounds: bounds_for(i) });
        i += 1;
    }
    r
}

/// Boundaries a recorder can use: at least one, positive, strictly ascending.
pub open spec fn ascending(b: Seq<u64>) -> bool {
    &&& b.len() > 0
    &&& b[0] > 0
    &&& forall|i: int, j: int| 0 <= i < j < b.len() ==> b[i] < b[j]
}

/// Every histogram has explicit, ascending buckets.
pub proof fn every_histogram_has_buckets(i: int)
    requires
        0 <= i < ALL_HISTOGRAMS@.len(),
    ensures
        ascending(bounds_at(i)),
{
    assert(WS_CONNECT_BUCKETS@ =~= seq![250u64, 500u64, 1000u64, 2500u64, 5000u64, 10000u64, 25000u64, 50000u64, 300000u64]);
    assert(SDP_NEGOTIATE_BUCKETS@ =~= seq![1u64, 5u64, 10u64, 50u64, 100u64, 500u64, 1000u64, 2000u64]);
    assert(CALL_DURATION_BUCKETS@ =~= seq![10000u64, 50000u64, 150000u64, 300000u64, 600000u64, 1800000u64, 6000000u64, 18000000u64, 36000000u64, 144000000u64]);
    assert(RTP_RTT_MS_BUCKETS@ =~= seq![100000u64, 200000u64, 300000u64, 500000u64, 750000u64, 1000000u64, 1500000u64, 2000000u64, 3000000u64, 5000000u64, 10000000u64]);
    assert(ROOM_TICK_LAG_BUCKETS@ =~= seq![5u64, 10u64, 20u64, 50u64, 100u64, 200u64, 500u64, 1000u64, 2500u64]);
    assert(WEBHOOK_DELIVERY_BUCKETS@ =~= seq![50u64, 250u64, 1000u64, 2500u64, 5000u64, 10000u64, 25000u64, 50000u64, 100000u64, 300000u64]);
    assert(DRAIN_BUCKETS@ =~= seq![1000u64, 5000u64, 10000u64, 50000u64, 150000u64, 300000u64, 600000u64, 900000u64, 1200000u64]);
    assert(RECORDING_UPLOAD_BUCKETS@ =~= seq![500u64, 1000u64, 2500u64, 5000u64, 10000u64, 50000u64, 150000u64, 600000u64, 3000000u64]);
    assert(BARGE_IN_DECISION_BUCKETS@ =~= seq![500u64, 1000u64, 2000u64, 3000u64, 5000u64, 7500u64, 10000u64, 25000u64, 50000u64]);
    assert(RTP_JITTER_MS_BUCKETS@ =~= seq![10000u64, 20000u64, 50000u64, 100000u64, 200000u64, 300000u64, 500000u64, 1000000u64, 2000000u64, 5000000u64]);
    assert(RTP_PACKET_LOSS_RATIO_BUCKETS@ =~= seq![10u64, 50u64, 100u64, 200u64, 500u64, 1000u64, 2000u64, 5000u64, 10000u64]);
    assert(RTP_MOS_ESTIMATE_BUCKETS@ =~= seq![15000u64, 20000u64, 26000u64, 31000u64, 36000u64, 40000u64, 44000u64, 50000u64]);
}

/// Every description there is belongs to a listed metric, and every listed metric
/// is described, with its own kind, at its own place.
pub proof fn every_metric_is_described(i: int)
    ensures
        0 <= i < ALL_COUNTERS@.len() ==> all_descriptions()[i] == counter_description(i),
        0 <= i < ALL_GAUGES@.len() ==> all_descriptions()[ALL_COUNTERS@.len() + i]
            == gauge_description(i),
        0 <= i < ALL_HISTOGRAMS@.len() ==> all_descriptions()[ALL_COUNTERS@.len()
            + ALL_GAUGES@.len() + i] == histogram_description(i),
        all_descriptions().len() == ALL_COUNTERS@.len() + ALL_GAUGES@.len()
            + ALL_HISTOGRAMS@.len(),
{
}

/// Every metric name starts with the daemon's prefix.
pub proof fn names_have_the_prefix(i: int)
    ensures
        0 <= i < ALL_COUNTERS@.len() ==> has_prefix(ALL_COUNTERS@[i]@, "siphon_ai_"@),
        0 <= i < ALL_GAUGES@.len() ==> has_prefix(ALL_GAUGES@[i]@, "siphon_ai_"@),
        0 <= i < ALL_HISTOGRAMS@.len() ==> has_prefix(ALL_HISTOGRAMS@[i]@, "siphon_ai_"@),
{
    counter_names_have_the_prefix(i);
    gauge_names_have_the_prefix(i);
    histogram_names_have_the_prefix(i);
}

proof fn counter_names_have_the_prefix(i: int)
    ensures
        0 <= i < ALL_COUNTERS@.len() ==> has_prefix(ALL_COUNTERS@[i]@, "siphon_ai_"@),
{
    reveal_strlit("siphon_ai_");
    let p = "siphon_ai_"@;
    assert(has_prefix(INVITES_TOTAL@, p)) by {
        reveal_strlit("siphon_ai_invites_total");
        assert(INVITES_TOTAL@.subrange(0, 10) =~= p);
    }
    assert(has_prefix(CALLS_TOTAL@, p)) by {
        reveal_strlit("siphon_ai_calls_total");
        assert(CALLS_TOTAL@.subrange(0, 10) =~= p);
    }
    assert(has_prefix(CALLS_DRAIN_FORCED_TOTAL@, p)) by {
        reveal_strlit("siphon_ai_calls_drain_forced_total");
        assert(CALLS_DRAIN_FORCED_TOTAL@.subrange(0, 10) =~= p);
    }
    assert(has_prefix(ROUTE_MATCH_TOTAL@, p)) by {
        reveal_strlit("siphon_ai_route_match_total");
        assert(ROUTE_MATCH_TOTAL@.subrange(0, 10) =~= p);
    }
    assert(has_prefix(VERSTAT_TOTAL@, p)) by {
        reveal_strlit("siphon_ai_verstat_total");
        assert(VERSTAT_TOTAL@.subrange(0, 10) =~= p);
    }
    assert(has_prefix(RECORDINGS_TOTAL@, p)) by {
        reveal_strlit("siphon_ai_recordings_total");
        assert(RECORDINGS_TOTAL@.subrange(0, 10) =~= p);
    }
    assert(has_prefix(RECORDING_UPLOADS_TOTAL@, p)) by {
        reveal_strlit("siphon_ai_recording_uploads_total");
        assert(RECORDING_UPLOADS_TOTAL@.subrange(0, 10) =~= p);
    }
    assert(has_prefix(SIP_RATE_LIMITED_TOTAL@, p)) by {
        reveal_strlit("siphon_ai_sip_rate_limited_total");
        assert(SIP_RATE_LIMITED_TOTAL@.subrange(0, 10) =~= p);
    }
    assert(has_prefix(HEP_PACKETS_SENT_TOTAL@, p)) by {
        reveal_strlit("siphon_ai_hep_packets_sent_total");
        assert(HEP_PACKETS_SENT_TOTAL@.subrange(0, 10) =~= p);
    }
    assert(has_prefix(HEP_PACKETS_DROPPED_TOTAL@, p)) by {
        reveal_strlit("siphon_ai_hep_packets_dropped_total");
        assert(HEP_PACKETS_DROPPED_TOTAL@.subrange(0, 10) =~= p);
    }
    assert(has_prefix(REGISTER_ATTEMPTS_TOTAL@, p)) by {
        reveal_strlit("siphon_ai_register_attempts_total");
        assert(REGISTER_ATTEMPTS_TOTAL@.subrange(0, 10) =~= p);
    }
    assert(has_prefix(REGISTER_ADMIN_TRIGGERS_TOTAL@, p)) by {
        reveal_strlit("siphon_ai_register_admin_triggers_total");
        assert(REGISTER_ADMIN_TRIGGERS_TOTAL@.subrange(0, 10) =~= p);
    }
    assert(has_prefix(OUTBOUND_CALLS_TOTAL@, p)) by {
        reveal_strlit("siphon_ai_outbound_calls_total");
        assert(OUTBOUND_CALLS_TOTAL@.subrange(0, 10) =~= p);
    }
    assert(has_prefix(OUTBOUND_SRTP_TOTAL@, p)) by {
        reveal_strlit("siphon_ai_outbound_srtp_total");
        assert(OUTBOUND_SRTP_TOTAL@.subrange(0, 10) =~= p);
    }
    assert(has_prefix(ADMIN_REQUESTS_TOTAL@, p)) by {
        reveal_strlit("siphon_ai_admin_requests_total");
        assert(ADMIN_REQUESTS_TOTAL@.subrange(0, 10) =~= p);
    }
    assert(has_prefix(METRICS_REQUESTS_TOTAL@, p)) by {
        reveal_strlit("siphon_ai_metrics_requests_total");
        assert(METRICS_REQUESTS_TOTAL@.subrange(0, 10) =~= p);
    }
    assert(has_prefix(ERROR_RING_CAPTURED_TOTAL@, p)) by {
        reveal_strlit("siphon_ai_error_ring_captured_total");
        assert(ERROR_RING_CAPTURED_TOTAL@.subrange(0, 10) =~= p);
    }
    assert(has_prefix(SIP_RING_MESSAGES_TOTAL@, p)) by {
        reveal_strlit("siphon_ai_sip_ring_messages_total");
        assert(SIP_RING_MESSAGES_TOTAL@.subrange(0, 10) =~= p);
    }
    assert(has_prefix(WS_FAILURE_PROMPTS_TOTAL@, p)) by {
        reveal_strlit("siphon_ai_ws_failure_prompts_total");
        assert(WS_FAILURE_PROMPTS_TOTAL@.subrange(0, 10) =~= p);
    }
    assert(has_prefix(DELAYED_OFFER_TOTAL@, p)) by {
        reveal_strlit("siphon_ai_delayed_offer_total");
        assert(DELAYED_OFFER_TOTAL@.subrange(0, 10) =~= p);
    }
    assert(has_prefix(OUTBOUND_DELAYED_OFFER_TOTAL@, p)) by {
        reveal_strlit("siphon_ai_outbound_delayed_offer_total");
        assert(OUTBOUND_DELAYED_OFFER_TOTAL@.subrange(0, 10) =~= p);
    }
    assert(has_prefix(PEER_HOLD_TX_SUPPRESSED_FRAMES_TOTAL@, p)) by {
        reveal_strlit("siphon_ai_peer_hold_tx_suppressed_frames_total");
        assert(PEER_HOLD_TX_SUPPRESSED_FRAMES_TOTAL@.subrange(0, 10) =~= p);
    }
    assert(has_prefix(OUTBOUND_AUDIO_FRAMES_DROPPED_TOTAL@, p)) by {
        reveal_strlit("siphon_ai_outbound_audio_frames_dropped_total");
        assert(OUTBOUND_AUDIO_FRAMES_DROPPED_TOTAL@.subrange(0, 10) =~= p);
    }
    assert(has_prefix(TRANSFERS_TOTAL@, p)) by {
        reveal_strlit("siphon_ai_transfers_total");
        assert(TRANSFERS_TOTAL@.subrange(0, 10) =~= p);
    }
    assert(has_prefix(CONFERENCE_JOINS_TOTAL@, p)) by {
        reveal_strlit("siphon_ai_conference_joins_total");
        assert(CONFERENCE_JOINS_TOTAL@.subrange(0, 10) =~= p);
    }
    assert(has_prefix(ROOM_FRAMES_DROPPED_TOTAL@, p)) by {
        reveal_strlit("siphon_ai_room_frames_dropped_total");
        assert(ROOM_FRAMES_DROPPED_TOTAL@.subrange(0, 10) =~= p);
    }
    assert(has_prefix(PARKS_TOTAL@, p)) by {
        reveal_strlit("siphon_ai_parks_total");
        assert(PARKS_TOTAL@.subrange(0, 10) =~= p);
    }
    assert(has_prefix(RETRIEVES_TOTAL@, p)) by {
        reveal_strlit("siphon_ai_retrieves_total");
        assert(RETRIEVES_TOTAL@.subrange(0, 10) =~= p);
    }
    assert(has_prefix(HOLDS_TOTAL@, p)) by {
        reveal_strlit("siphon_ai_holds_total");
        assert(HOLDS_TOTAL@.subrange(0, 10) =~= p);
    }
    assert(has_prefix(WS_RECONNECTS_TOTAL@, p)) by {
        reveal_strlit("siphon_ai_ws_reconnects_total");
        assert(WS_RECONNECTS_TOTAL@.subrange(0, 10) =~= p);
    }
    assert(has_prefix(CONFIG_RELOADS_TOTAL@, p)) by {
        reveal_strlit("siphon_ai_config_reloads_total");
        assert(CONFIG_RELOADS_TOTAL@.subrange(0, 10) =~= p);
    }
    assert(has_prefix(WEBHOOK_DELIVERIES_TOTAL@, p)) by {
        reveal_strlit("siphon_ai_webhook_deliveries_total");
        assert(WEBHOOK_DELIVERIES_TOTAL@.subrange(0, 10) =~= p);
    }
    assert(has_prefix(WEBHOOK_DELIVERY_ATTEMPTS_TOTAL@, p)) by {
        reveal_strlit("siphon_ai_webhook_delivery_attempts_total");
        assert(WEBHOOK_DELIVERY_ATTEMPTS_TOTAL@.subrange(0, 10) =~= p);
    }
    assert(has_prefix(SIP_AUTH_TOTAL@, p)) by {
        reveal_strlit("siphon_ai_sip_auth_total");
        assert(SIP_AUTH_TOTAL@.subrange(0, 10) =~= p);
    }
    assert(has_prefix(INVITE_ADMISSION_TOTAL@, p)) by {
        reveal_strlit("siphon_ai_invite_admission_total");
        assert(INVITE_ADMISSION_TOTAL@.subrange(0, 10) =~= p);
    }
    assert(has_prefix(NOTIFY_TOTAL@, p)) by {
        reveal_strlit("siphon_ai_notify_total");
        assert(NOTIFY_TOTAL@.subrange(0, 10) =~= p);
    }
    assert(has_prefix(SESSION_REFRESH_TOTAL@, p)) by {
        reveal_strlit("siphon_ai_session_refresh_total");
        assert(SESSION_REFRESH_TOTAL@.subrange(0, 10) =~= p);
    }
    assert(has_prefix(SESSION_REFRESH_STOPPED_TOTAL@, p)) by {
        reveal_strlit("siphon_ai_session_refresh_stopped_total");
        assert(SESSION_REFRESH_STOPPED_TOTAL@.subrange(0, 10) =~= p);
    }
    assert(has_prefix(QUALITY_RECORDS_TOTAL@, p)) by {
        reveal_strlit("siphon_ai_quality_records_total");
        assert(QUALITY_RECORDS_TOTAL@.subrange(0, 10) =~= p);
    }
    assert(has_prefix(SILENCE_EVENTS_TOTAL@, p)) by {
        reveal_strlit("siphon_ai_silence_events_total");
        assert(SILENCE_EVENTS_TOTAL@.subrange(0, 10) =~= p);
    }
    assert(has_prefix(DEAD_AIR_EVENTS_TOTAL@, p)) by {
        reveal_strlit("siphon_ai_dead_air_events_total");
        assert(DEAD_AIR_EVENTS_TOTAL@.subrange(0, 10) =~= p);
    }
    assert(has_prefix(BARGE_IN_DECISIONS_TOTAL@, p)) by {
        reveal_strlit("siphon_ai_barge_in_decisions_total");
        assert(BARGE_IN_DECISIONS_TOTAL@.subrange(0, 10) =~= p);
    }
    assert(has_prefix(SIP_TLS_RELOAD_ATTEMPTS_TOTAL@, p)) by {
        reveal_strlit("siphon_ai_sip_tls_reload_attempts_total");
        assert(SIP_TLS_RELOAD_ATTEMPTS_TOTAL@.subrange(0, 10) =~= p);
    }
    assert(has_prefix(ADMIN_TLS_RELOAD_ATTEMPTS_TOTAL@, p)) by {
        reveal_strlit("siphon_ai_admin_tls_reload_attempts_total");
        assert(ADMIN_TLS_RELOAD_ATTEMPTS_TOTAL@.subrange(0, 10) =~= p);
    }
    assert(has_prefix(OTLP_SPANS_DROPPED_TOTAL@, p)) by {
        reveal_strlit("siphon_ai_otlp_spans_dropped_total");
        assert(OTLP_SPANS_DROPPED_TOTAL@.subrange(0, 10) =~= p);
    }
    assert(has_prefix(OTLP_LOG_RECORDS_DROPPED_TOTAL@, p)) by {
        reveal_strlit("siphon_ai_otlp_log_records_dropped_total");
        assert(OTLP_LOG_RECORDS_DROPPED_TOTAL@.subrange(0, 10) =~= p);
    }
    assert(ALL_COUNTERS@ =~= seq![INVITES_TOTAL, CALLS_TOTAL, CALLS_DRAIN_FORCED_TOTAL, ROUTE_MATCH_TOTAL, VERSTAT_TOTAL, RECORDINGS_TOTAL, RECORDING_UPLOADS_TOTAL, SIP_RATE_LIMITED_TOTAL, HEP_PACKETS_SENT_TOTAL, HEP_PACKETS_DROPPED_TOTAL, REGISTER_ATTEMPTS_TOTAL, REGISTER_ADMIN_TRIGGERS_TOTAL, OUTBOUND_CALLS_TOTAL, OUTBOUND_SRTP_TOTAL, ADMIN_REQUESTS_TOTAL, METRICS_REQUESTS_TOTAL, ERROR_RING_CAPTURED_TOTAL, SIP_RING_MESSAGES_TOTAL, WS_FAILURE_PROMPTS_TOTAL, DELAYED_OFFER_TOTAL, OUTBOUND_DELAYED_OFFER_TOTAL, PEER_HOLD_TX_SUPPRESSED_FRAMES_TOTAL, OUTBOUND_AUDIO_FRAMES_DROPPED_TOTAL, TRANSFERS_TOTAL, CONFERENCE_JOINS_TOTAL, ROOM_FRAMES_DROPPED_TOTAL, PARKS_TOTAL, RETRIEVES_TOTAL, HOLDS_TOTAL, WS_RECONNECTS_TOTAL, CONFIG_RELOADS_TOTAL, WEBHOOK_DELIVERIES_TOTAL, WEBHOOK_DELIVERY_ATTEMPTS_TOTAL, SIP_AUTH_TOTAL, INVITE_ADMISSION_TOTAL, NOTIFY_TOTAL, SESSION_REFRESH_TOTAL, SESSION_REFRESH_STOPPED_TOTAL, QUALITY_RECORDS_TOTAL, SILENCE_EVENTS_TOTAL, DEAD_AIR_EVENTS_TOTAL, BARGE_IN_DECISIONS_TOTAL, SIP_TLS_RELOAD_ATTEMPTS_TOTAL, ADMIN_TLS_RELOAD_ATTEMPTS_TOTAL, OTLP_SPANS_DROPPED_TOTAL, OTLP_LOG_RECORDS_DROPPED_TOTAL]);
}

proof fn gauge_names_have_the_prefix(i: int)
    ensures
        0 <= i < ALL_GAUGES@.len() ==> has_prefix(ALL_GAUGES@[i]@, "siphon_ai_"@),
{
    reveal_strlit("siphon_ai_");
    let p = "siphon_ai_"@;
    assert(has_prefix(CALLS_ACTIVE@, p)) by {
        reveal_strlit("siphon_ai_calls_active");
        assert(CALLS_ACTIVE@.subrange(0, 10) =~= p);
    }
    assert(has_prefix(DIALOGS_ACTIVE@, p)) by {
        reveal_strlit("siphon_ai_dialogs_active");
        assert(DIALOGS_ACTIVE@.subrange(0, 10) =~= p);
    }
    assert(has_prefix(OUTBOUND_CALLS_ACTIVE@, p)) by {
        reveal_strlit("siphon_ai_outbound_calls_active");
        assert(OUTBOUND_CALLS_ACTIVE@.subrange(0, 10) =~= p);
    }
    assert(has_prefix(REGISTER_STATE@, p)) by {
        reveal_strlit("siphon_ai_register_state");
        assert(REGISTER_STATE@.subrange(0, 10) =~= p);
    }
    assert(has_prefix(CONFERENCES_ACTIVE@, p)) by {
        reveal_strlit("siphon_ai_conferences_active");
        assert(CONFERENCES_ACTIVE@.subrange(0, 10) =~= p);
    }
    assert(has_prefix(SIP_RING_TRACES@, p)) by {
        reveal_strlit("siphon_ai_sip_ring_traces");
        assert(SIP_RING_TRACES@.subrange(0, 10) =~= p);
    }
    assert(has_prefix(CONFERENCE_PARTICIPANTS@, p)) by {
        reveal_strlit("siphon_ai_conference_participants");
        assert(CONFERENCE_PARTICIPANTS@.subrange(0, 10) =~= p);
    }
    assert(has_prefix(PARKED_CALLS_ACTIVE@, p)) by {
        reveal_strlit("siphon_ai_parked_calls_active");
        assert(PARKED_CALLS_ACTIVE@.subrange(0, 10) =~= p);
    }
    assert(has_prefix(DRAINING@, p)) by {
        reveal_strlit("siphon_ai_draining");
        assert(DRAINING@.subrange(0, 10) =~= p);
    }
    assert(has_prefix(WEBHOOK_SPOOL_DEPTH@, p)) by {
        reveal_strlit("siphon_ai_webhook_spool_depth");
        assert(WEBHOOK_SPOOL_DEPTH@.subrange(0, 10) =~= p);
    }
    assert(has_prefix(RECORDING_UPLOAD_SPOOL_DEPTH@, p)) by {
        reveal_strlit("siphon_ai_recording_upload_spool_depth");
        assert(RECORDING_UPLOAD_SPOOL_DEPTH@.subrange(0, 10) =~= p);
    }
    assert(has_prefix(INVITE_ADMISSION_SOURCES@, p)) by {
        reveal_strlit("siphon_ai_invite_admission_sources");
        assert(INVITE_ADMISSION_SOURCES@.subrange(0, 10) =~= p);
    }
    assert(has_prefix(OTLP_COLLECTOR_UP@, p)) by {
        reveal_strlit("siphon_ai_otlp_collector_up");
        assert(OTLP_COLLECTOR_UP@.subrange(0, 10) =~= p);
    }
    assert(ALL_GAUGES@ =~= seq![CALLS_ACTIVE, DIALOGS_ACTIVE, OUTBOUND_CALLS_ACTIVE, REGISTER_STATE, CONFERENCES_ACTIVE, SIP_RING_TRACES, CONFERENCE_PARTICIPANTS, PARKED_CALLS_ACTIVE, DRAINING, WEBHOOK_SPOOL_DEPTH, RECORDING_UPLOAD_SPOOL_DEPTH, INVITE_ADMISSION_SOURCES, OTLP_COLLECTOR_UP]);
}

proof fn histogram_names_have_the_prefix(i: int)
    ensures
        0 <= i < ALL_HISTOGRAMS@.len() ==> has_prefix(ALL_HISTOGRAMS@[i]@, "siphon_ai_"@),
{
    reveal_strlit("siphon_ai_");
    let p = "siphon_ai_"@;
    assert(has_prefix(WS_CONNECT_SECONDS@, p)) by {
        reveal_strlit("siphon_ai_ws_connect_seconds");
        assert(WS_CONNECT_SECONDS@.subrange(0, 10) =~= p);
    }
    assert(has_prefix(SDP_NEGOTIATE_SECONDS@, p)) by {
        reveal_strlit("siphon_ai_sdp_negotiate_seconds");
        assert(SDP_NEGOTIATE_SECONDS@.subrange(0, 10) =~= p);
    }
    assert(has_prefix(CALL_DURATION_SECONDS@, p)) by {
        reveal_strlit("siphon_ai_call_duration_seconds");
        assert(CALL_DURATION_SECONDS@.subrange(0, 10) =~= p);
    }
    assert(has_prefix(RECORDING_UPLOAD_SECONDS@, p)) by {
        reveal_strlit("siphon_ai_recording_upload_seconds");
        assert(RECORDING_UPLOAD_SECONDS@.subrange(0, 10) =~= p);
    }
    assert(has_prefix(RTP_RTT_MS@, p)) by {
        reveal_strlit("siphon_ai_rtp_rtt_ms");
        assert(RTP_RTT_MS@.subrange(0, 10) =~= p);
    }
    assert(has_prefix(RTP_JITTER_MS@, p)) by {
        reveal_strlit("siphon_ai_rtp_jitter_ms");
        assert(RTP_JITTER_MS@.subrange(0, 10) =~= p);
    }
    assert(has_prefix(RTP_RX_JITTER_MS@, p)) by {
        reveal_strlit("siphon_ai_rtp_rx_jitter_ms");
        assert(RTP_RX_JITTER_MS@.subrange(0, 10) =~= p);
    }
    assert(has_prefix(RTP_PACKET_LOSS_RATIO@, p)) by {
        reveal_strlit("siphon_ai_rtp_packet_loss_ratio");
        assert(RTP_PACKET_LOSS_RATIO@.subrange(0, 10) =~= p);
    }
    assert(has_prefix(RTP_MOS_ESTIMATE@, p)) by {
        reveal_strlit("siphon_ai_rtp_mos_estimate");
        assert(RTP_MOS_ESTIMATE@.subrange(0, 10) =~= p);
    }
    assert(has_prefix(ROOM_TICK_LAG_SECONDS@, p)) by {
        reveal_strlit("siphon_ai_room_tick_lag_seconds");
        assert(ROOM_TICK_LAG_SECONDS@.subrange(0, 10) =~= p);
    }
    assert(has_prefix(DRAIN_SECONDS@, p)) by {
        reveal_strlit("siphon_ai_drain_seconds");
        assert(DRAIN_SECONDS@.subrange(0, 10) =~= p);
    }
    assert(has_prefix(BARGE_IN_DECISION_SECONDS@, p)) by {
        reveal_strlit("siphon_ai_barge_in_decision_seconds");
        assert(BARGE_IN_DECISION_SECONDS@.subrange(0, 10) =~= p);
    }
    assert(has_prefix(WEBHOOK_DELIVERY_SECONDS@, p)) by {
        reveal_strlit("siphon_ai_webhook_delivery_seconds");
        assert(WEBHOOK_DELIVERY_SECONDS@.subrange(0, 10) =~= p);
    }
    assert(ALL_HISTOGRAMS@ =~= seq![WS_CONNECT_SECONDS, SDP_NEGOTIATE_SECONDS, CALL_DURATION_SECONDS, RECORDING_UPLOAD_SECONDS, RTP_RTT_MS, RTP_JITTER_MS, RTP_RX_JITTER_MS, RTP_PACKET_LOSS_RATIO, RTP_MOS_ESTIMATE, ROOM_TICK_LAG_SECONDS, DRAIN_SECONDS, BARGE_IN_DECISION_SECONDS, WEBHOOK_DELIVERY_SECONDS]);
}

/// Failure building the metrics recorder.
#[derive(Debug)]
pub enum InitError {
    /// The recorder could not be built or installed.
    Install(String),
}

impl InitError {
    /// The message, as operators see it.
    pub fn to_string(&self) -> (r: String)
        ensures
            r@ == "metrics recorder install failed: "@ + self->Install_0@,
    {
        match self {
            InitError::Install(e) => crate::text::concat(
                "metrics recorder install failed: ",
                e.as_str(),
            ),
        }
    }
}

/// Each histogram has the buckets made for what it measures.
pub proof fn each_histogram_has_its_own_buckets(r: Vec<HistogramBuckets>)
    requires
        call_ensures(histogram_buckets, (), r),
    ensures
        r@.len() == 13,
        r@[0].name@ == WS_CONNECT_SECONDS@ && r@[0].bounds@ == WS_CONNECT_BUCKETS@,
        r@[1].name@ == SDP_NEGOTIATE_SECONDS@ && r@[1].bounds@ == SDP_NEGOTIATE_BUCKETS@,
        r@[2].name@ == CALL_DURATION_SECONDS@ && r@[2].bounds@ == CALL_DURATION_BUCKETS@,
        r@[3].name@ == RECORDING_UPLOAD_SECONDS@ && r@[3].bounds@ == RECORDING_UPLOAD_BUCKETS@,
        r@[4].name@ == RTP_RTT_MS@ && r@[4].bounds@ == RTP_RTT_MS_BUCKETS@,
        r@[5].name@ == RTP_JITTER_MS@ && r@[5].bounds@ == RTP_JITTER_MS_BUCKETS@,
        r@[6].name@ == RTP_RX_JITTER_MS@ && r@[6].bounds@ == RTP_JITTER_MS_BUCKETS@,
        r@[7].name@ == RTP_PACKET_LOSS_RATIO@ && r@[7].bounds@ == RTP_PACKET_LOSS_RATIO_BUCKETS@,
        r@[8].name@ == RTP_MOS_ESTIMATE@ && r@[8].bounds@ == RTP_MOS_ESTIMATE_BUCKETS@,
        r@[9].name@ == ROOM_TICK_LAG_SECONDS@ && r@[9].bounds@ == ROOM_TICK_LAG_BUCKETS@,
        r@[10].name@ == DRAIN_SECONDS@ && r@[10].bounds@ == DRAIN_BUCKETS@,
        r@[11].name@ == BARGE_IN_DECISION_SECONDS@ && r@[11].bounds@ == BARGE_IN_DECISION_BUCKETS@,
        r@[12].name@ == WEBHOOK_DELIVERY_SECONDS@ && r@[12].bounds@ == WEBHOOK_DELIVERY_BUCKETS@,
{
}

/// Every listed metric is described once, under its own kind and with its own text, and
/// what is registered is what is described.
pub proof fn each_metric_is_registered_as_its_kind(
    r: Vec<MetricDescription>,
    registered: Vec<MetricDescription>,
    published: Vec<&'static str>,
    i: int,
)
    requires
        call_ensures(descriptions, (), r),
        call_ensures(register_descriptions, (), registered),
        call_ensures(publish_zero_baselines, (), published),
    ensures
        r@.len() == 72,
        registered@ == r@,
        0 <= i < 46 ==> r@[i].kind is Counter && r@[i].name == ALL_COUNTERS@[i] && r@[i].help
            == COUNTER_HELP@[i],
        0 <= i < 13 ==> r@[46 + i].kind is Gauge && r@[46 + i].name == ALL_GAUGES@[i] && r@[46
            + i].unit == GAUGE_UNITS@[i] && r@[46 + i].help == GAUGE_HELP@[i],
        0 <= i < 13 ==> r@[59 + i].kind is Histogram && r@[59 + i].name == ALL_HISTOGRAMS@[i]
            && r@[59 + i].unit == HISTOGRAM_UNITS@[i] && r@[59 + i].help == HISTOGRAM_HELP@[i],
        published@.len() == 1 && published@[0]@ == OUTBOUND_AUDIO_FRAMES_DROPPED_TOTAL@,
{
    if 0 <= i < 13 {
        every_metric_is_described(i);
    }
    if 0 <= i < 46 {
        every_metric_is_described(i);
    }
}

} // verus!
