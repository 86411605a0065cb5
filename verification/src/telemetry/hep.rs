//! HEP3 packets: what each emitted packet holds, and which legs a node has.
use vstd::prelude::*;

use crate::net::Endpoint;
use crate::telemetry::metrics::{HEP_PACKETS_DROPPED_TOTAL, HEP_PACKETS_SENT_TOTAL};

verus! {

/// HEP3 payload protocols.
#[derive(Debug, Clone, Copy, PartialEq, Eq, Structural)]
pub enum HepProtocol {
    Sip,
    Rtcp,
    Log,
    Cdr,
    Verstat,
    Other,
}

/// Transport of the captured traffic.
#[derive(Debug, Clone, Copy, PartialEq, Eq, Structural)]
pub enum IpProto {
    Udp,
    Tcp,
    Other,
}

/// One HEP3 packet.
#[derive(Debug)]
pub struct HepPacket {
    pub capture_id: u32,
    pub capture_password: Option<String>,
    pub protocol: HepProtocol,
    pub transport: IpProto,
    pub src: Endpoint,
    pub dst: Endpoint,
    /// Milliseconds since the Unix epoch.
    pub timestamp_ms: u64,
    pub correlation_id: Option<String>,
    pub payload: Vec<u8>,
}

/// The node's HEP identity: what it stamps on every packet it composes.
#[derive(Debug)]
pub struct HepTelemetry {
    capture_id: u32,
    capture_password: Option<String>,
    node_id: String,
}

/// Inputs to [`HepTelemetry::build`].
#[derive(Debug)]
pub struct HepTelemetryBuild {
    /// Whether a UDP collector is configured.
    pub collector: bool,
    pub capture_id: u32,
    pub capture_password: Option<String>,
    pub node_id: String,
    /// In-process legs fanned out beside the UDP one.
    pub extra_sinks: usize,
}

/// Which legs a node has, and how packets reach them.
#[derive(Debug, Clone, Copy, PartialEq, Eq, Structural)]
pub struct SinkPlan {
    /// The UDP leg exists: a socket is opened and a worker is drained on shutdown.
    pub udp: bool,
    /// The legs sit behind a fan-out; a sole leg is used directly.
    pub fan_out: bool,
}

impl HepTelemetry {
    pub closed spec fn spec_capture_id(self) -> u32 {
        self.capture_id
    }

    pub closed spec fn spec_capture_password(self) -> Option<String> {
        self.capture_password
    }

    pub closed spec fn spec_node_id(self) -> Seq<char> {
        self.node_id@
    }

    /// The node's identity, and the legs to assemble: the UDP leg only when a
    /// collector is configured, a fan-out only when there is not exactly one leg.
    pub fn build(args: HepTelemetryBuild) -> (r: (Self, SinkPlan))
        ensures
            r.0.spec_capture_id() == args.capture_id,
            r.0.spec_capture_password() == args.capture_password,
            r.0.spec_node_id() == args.node_id@,
            r.1.udp == args.collector,
            r.1.fan_out == (args.extra_sinks + (if args.collector {
                1int
            } else {
                0
            }) != 1),
    {
        let fan_out = if args.collector {
            args.extra_sinks != 0
        } else {
            args.extra_sinks != 1
        };
        (
            HepTelemetry {
                capture_id: args.capture_id,
                capture_password: args.capture_password,
                node_id: args.node_id,
            },
            SinkPlan { udp: args.collector, fan_out },
        )
    }

    /// An application log line as a packet. `peer_hint` stands at both ends when
    /// it is known; otherwise both are the placeholder.
    pub fn emit_log(
        &self,
        message: &str,
        correlation_id: Option<&str>,
        peer_hint: Option<Endpoint>,
        timestamp_ms: u64,
    ) -> (p: HepPacket)
        ensures
            self.stamped(p, HepProtocol::Log, timestamp_ms),
            p.payload@ == vstd::utf8::encode_utf8(message@),
            match correlation_id {
                Some(c) => p.correlation_id is Some && p.correlation_id->0@ == c@,
                None => p.correlation_id is None,
            },
            match peer_hint {
                Some(e) => p.src == e && p.dst == e,
                None => p.src.is_placeholder() && p.dst.is_placeholder(),
            },
    {
        let (src, dst) = match peer_hint {
            Some(e) => (e.clone(), e),
            None => (Endpoint::placeholder(), Endpoint::placeholder()),
        };
        HepPacket {
            capture_id: self.capture_id,
            capture_password: self.capture_password.clone(),
            protocol: HepProtocol::Log,
            transport: IpProto::Udp,
            src,
            dst,
            timestamp_ms,
            correlation_id: match correlation_id {
                Some(c) => Some(c.to_owned()),
                None => None,
            },
            payload: vstd::slice::slice_to_vec(message.as_bytes()),
        }
    }

    /// A caller-verification result, already serialized, as a packet. The
    /// correlation id is the SIP `Call-ID`, so a collector threads the result onto
    /// the call.
    pub fn emit_verstat(&self, payload: &[u8], correlation_id: &str, timestamp_ms: u64) -> (p:
        HepPacket)
        ensures
            self.stamped(p, HepProtocol::Verstat, timestamp_ms),
            p.payload@ == payload@,
            p.correlation_id is Some && p.correlation_id->0@ == correlation_id@,
            p.src.is_placeholder() && p.dst.is_placeholder(),
    {
        HepPacket {
            capture_id: self.capture_id,
            capture_password: self.capture_password.clone(),
            protocol: HepProtocol::Verstat,
            transport: IpProto::Udp,
            src: Endpoint::placeholder(),
            dst: Endpoint::placeholder(),
            timestamp_ms,
            correlation_id: Some(correlation_id.to_owned()),
            payload: vstd::slice::slice_to_vec(payload),
        }
    }

    /// What every packet of this node carries.
    pub open spec fn stamped(self, p: HepPacket, protocol: HepProtocol, timestamp_ms: u64) -> bool {
        &&& p.capture_id == self.spec_capture_id()
        &&& p.capture_password == self.spec_capture_password()
        &&& p.protocol == protocol
        &&& p.transport == IpProto::Udp
        &&& p.timestamp_ms == timestamp_ms
    }

    /// Node identifier the daemon was configured with.
    pub fn node_id(&self) -> (r: &str)
        ensures
            r@ == self.spec_node_id(),
    {
        self.node_id.as_str()
    }

    /// Capture id stamped on every packet.
    pub fn capture_id(&self) -> (r: u32)
        ensures
            r == self.spec_capture_id(),
    {
        self.capture_id
    }

    /// Shared collector password, if set.
    pub fn capture_password(&self) -> (r: Option<&str>)
        ensures
            match r {
                Some(p) => self.spec_capture_password() is Some && p@
                    == self.spec_capture_password()->0@,
                None => self.spec_capture_password() is None,
            },
    {
        match &self.capture_password {
            Some(p) => Some(p.as_str()),
            None => None,
        }
    }
}

/// The values of the shipping counters.
#[derive(Debug, Clone, Copy, PartialEq, Eq)]
pub struct HepCounts {
    /// The counter of packets written to the wire, and its value.
    pub sent: (&'static str, u64),
    /// The counter of packets dropped, and its value.
    pub dropped: (&'static str, u64),
    /// The `reason` label of the packets dropped.
    pub reason: &'static str,
}

/// What is published of the UDP leg: the packets it sent, and those it dropped on a
/// full queue.
pub fn publish_counters(sent: u64, drops: u64) -> (r: HepCounts)
    ensures
        r.sent.0@ == HEP_PACKETS_SENT_TOTAL@ && r.sent.1 == sent,
        r.dropped.0@ == HEP_PACKETS_DROPPED_TOTAL@ && r.dropped.1 == drops,
        r.reason@ == "queue_full"@,
{
    HepCounts {
        sent: (HEP_PACKETS_SENT_TOTAL, sent),
        dropped: (HEP_PACKETS_DROPPED_TOTAL, drops),
        reason: "queue_full",
    }
}

/// The text of the log line an operator's probe emits.
pub fn probe_message(node_id: &str) -> (r: String)
    ensures
        r@ == "siphon-ai admin probe from node="@ + node_id@,
{
    crate::text::concat("siphon-ai admin probe from node=", node_id)
}

// ---- What is promised of every packet ----

/// A node stamps its packets with what it was built with, and a log line is sent as its
/// text, on its correlation, at its time and from its peer; without a peer both ends are
/// the placeholder.
pub proof fn a_log_line_is_sent_as_it_is(
    args: HepTelemetryBuild,
    built: (HepTelemetry, SinkPlan),
    message: &str,
    correlation_id: Option<&str>,
    peer: Option<Endpoint>,
    timestamp_ms: u64,
    p: HepPacket,
)
    requires
        call_ensures(HepTelemetry::build, (args,), built),
        call_ensures(
            HepTelemetry::emit_log,
            (&built.0, message, correlation_id, peer, timestamp_ms),
            p,
        ),
    ensures
        p.capture_id == args.capture_id,
        p.capture_password == args.capture_password,
        p.protocol is Log,
        p.transport is Udp,
        p.timestamp_ms == timestamp_ms,
        p.payload@ == vstd::utf8::encode_utf8(message@),
        correlation_id is None <==> p.correlation_id is None,
        correlation_id is Some ==> p.correlation_id->0@ == correlation_id->0@,
        peer is Some ==> p.src == peer->0 && p.dst == peer->0,
        peer is None ==> {
            &&& p.src.ip == crate::net::IpAddr::V4(0) && p.src.port == 0
            &&& p.dst.ip == crate::net::IpAddr::V4(0) && p.dst.port == 0
        },
{
}

/// A verification result is sent as its bytes, on the Call-ID of its call and under its own
/// protocol.
pub proof fn a_verification_is_sent_as_it_is(
    args: HepTelemetryBuild,
    built: (HepTelemetry, SinkPlan),
    payload: &[u8],
    correlation_id: &str,
    timestamp_ms: u64,
    p: HepPacket,
)
    requires
        call_ensures(HepTelemetry::build, (args,), built),
        call_ensures(
            HepTelemetry::emit_verstat,
            (&built.0, payload, correlation_id, timestamp_ms),
            p,
        ),
    ensures
        p.capture_id == args.capture_id,
        p.capture_password == args.capture_password,
        p.protocol is Verstat,
        p.transport is Udp,
        p.timestamp_ms == timestamp_ms,
        p.payload@ == payload@,
        p.correlation_id is Some && p.correlation_id->0@ == correlation_id@,
        p.src.port == 0 && p.dst.port == 0,
{
}

/// A node has a UDP leg exactly when a collector is configured, and a fan-out exactly when
/// it has not one leg; it tells what it was built with.
pub proof fn a_node_has_the_legs_it_is_built_with(
    args: HepTelemetryBuild,
    built: (HepTelemetry, SinkPlan),
    node: &str,
    id: u32,
    password: Option<&str>,
)
    requires
        call_ensures(HepTelemetry::build, (args,), built),
        call_ensures(HepTelemetry::node_id, (&built.0,), node),
        call_ensures(HepTelemetry::capture_id, (&built.0,), id),
        call_ensures(HepTelemetry::capture_password, (&built.0,), password),
    ensures
        built.1.udp == args.collector,
        args.collector ==> (built.1.fan_out <==> args.extra_sinks > 0),
        !args.collector ==> (built.1.fan_out <==> args.extra_sinks != 1),
        node@ == args.node_id@,
        id == args.capture_id,
        password is Some <==> args.capture_password is Some,
        password is Some ==> password->0@ == args.capture_password->0@,
{
}

/// The packets sent and those dropped are published each under its own counter.
pub proof fn sent_and_dropped_are_counted_apart(sent: u64, drops: u64, r: HepCounts)
    requires
        call_ensures(publish_counters, (sent, drops), r),
    ensures
        r.sent.0@ == HEP_PACKETS_SENT_TOTAL@,
        r.sent.1 == sent,
        r.dropped.0@ == HEP_PACKETS_DROPPED_TOTAL@,
        r.dropped.1 == drops,
        r.reason@ == "queue_full"@,
{
}

/// A probe names its node.
pub proof fn a_probe_names_its_node(node_id: &str, r: String)
    requires
        call_ensures(probe_message, (node_id,), r),
    ensures
        r@ == "siphon-ai admin probe from node="@ + node_id@,
{
}

} // verus!
