//! Labels of the transport-layer rate-limit counter.
use vstd::prelude::*;

use crate::telemetry::metrics::SIP_RATE_LIMITED_TOTAL;

verus! {

/// SIP transports.
#[derive(Debug, Clone, Copy, PartialEq, Eq, Structural)]
pub enum TransportLabel {
    Udp,
    Tcp,
    Tls,
    Sctp,
    TlsSctp,
    Ws,
    Wss,
}

/// The published label of a transport.
pub open spec fn label_of(t: TransportLabel) -> Seq<char> {
    match t {
        TransportLabel::Udp => "udp"@,
        TransportLabel::Tcp => "tcp"@,
        TransportLabel::Tls => "tls"@,
        TransportLabel::Sctp => "sctp"@,
        TransportLabel::TlsSctp => "tls_sctp"@,
        TransportLabel::Ws => "ws"@,
        TransportLabel::Wss => "wss"@,
    }
}

/// The stable, lowercase metric label of a transport.
pub fn transport_label(transport: TransportLabel) -> (r: &'static str)
    ensures
        r@ == label_of(transport),
{
    match transport {
        TransportLabel::Udp => "udp",
        TransportLabel::Tcp => "tcp",
        TransportLabel::Tls => "tls",
        TransportLabel::Sctp => "sctp",
        TransportLabel::TlsSctp => "tls_sctp",
        TransportLabel::Ws => "ws",
        TransportLabel::Wss => "wss",
    }
}

/// No two transports share a label.
pub proof fn labels_are_distinct(a: TransportLabel, b: TransportLabel)
    ensures
        label_of(a) == label_of(b) <==> a == b,
{
    reveal_strlit("udp");
    reveal_strlit("tcp");
    reveal_strlit("tls");
    reveal_strlit("sctp");
    reveal_strlit("tls_sctp");
    reveal_strlit("ws");
    reveal_strlit("wss");
    assert("udp"@[0] == 'u' && "tcp"@[0] == 't' && "tls"@[0] == 't' && "wss"@[0] == 'w');
    assert("tcp"@[1] == 'c' && "tls"@[1] == 'l');
    assert("udp"@.len() == 3 && "tcp"@.len() == 3 && "tls"@.len() == 3 && "wss"@.len() == 3);
    assert("sctp"@.len() == 4 && "tls_sctp"@.len() == 8 && "ws"@.len() == 2);
}

/// The daemon's transport observer: only rate-limit drops are counted, because
/// nothing downstream can see them.
#[derive(Debug, Clone, Copy)]
pub struct SiphonTransportMetrics;

impl SiphonTransportMetrics {
    /// The counter and the label that one dropped packet adds one to.
    pub fn on_rate_limited(&self, transport: TransportLabel) -> (r: (&'static str, &'static str))
        ensures
            r.0@ == SIP_RATE_LIMITED_TOTAL@,
            r.1@ == label_of(transport),
    {
        (SIP_RATE_LIMITED_TOTAL, transport_label(transport))
    }
}

/// The labels whose drop counter is published at zero when the daemon starts: every
/// transport it can listen on.
pub fn baseline_labels() -> (r: Vec<&'static str>)
    ensures
        r@.len() == 5,
        r@[0]@ == label_of(TransportLabel::Udp),
        r@[1]@ == label_of(TransportLabel::Tcp),
        r@[2]@ == label_of(TransportLabel::Tls),
        r@[3]@ == label_of(TransportLabel::Ws),
        r@[4]@ == label_of(TransportLabel::Wss),
{
    let mut r: Vec<&'static str> = Vec::new();
    r.push(transport_label(TransportLabel::Udp));
    r.push(transport_label(TransportLabel::Tcp));
    r.push(transport_label(TransportLabel::Tls));
    r.push(transport_label(TransportLabel::Ws));
    r.push(transport_label(TransportLabel::Wss));
    r
}

/// Each transport is counted under its own name, in lower case, and so is a packet that is
/// dropped on it.
pub proof fn each_transport_has_its_label(
    t: TransportLabel,
    r: &'static str,
    m: &SiphonTransportMetrics,
    c: (&'static str, &'static str),
)
    requires
        call_ensures(transport_label, (t,), r),
        call_ensures(SiphonTransportMetrics::on_rate_limited, (m, t), c),
    ensures
        r@ == "udp"@ <==> t is Udp,
        r@ == "tcp"@ <==> t is Tcp,
        r@ == "tls"@ <==> t is Tls,
        r@ == "sctp"@ <==> t is Sctp,
        r@ == "tls_sctp"@ <==> t is TlsSctp,
        r@ == "ws"@ <==> t is Ws,
        r@ == "wss"@ <==> t is Wss,
        c.0@ == SIP_RATE_LIMITED_TOTAL@,
        c.1@ == r@,
{
    labels_are_distinct(t, TransportLabel::Udp);
    labels_are_distinct(t, TransportLabel::Tcp);
    labels_are_distinct(t, TransportLabel::Tls);
    labels_are_distinct(t, TransportLabel::Sctp);
    labels_are_distinct(t, TransportLabel::TlsSctp);
    labels_are_distinct(t, TransportLabel::Ws);
    labels_are_distinct(t, TransportLabel::Wss);
}

/// The transports that the daemon can listen on are published from the start, each once.
pub proof fn every_listener_has_a_baseline(r: Vec<&'static str>, i: int, j: int)
    requires
        call_ensures(baseline_labels, (), r),
    ensures
        r@.len() == 5,
        r@[0]@ == "udp"@ && r@[1]@ == "tcp"@ && r@[2]@ == "tls"@ && r@[3]@ == "ws"@ && r@[4]@
            == "wss"@,
        0 <= i < j < r@.len() ==> r@[i]@ != r@[j]@,
{
    labels_are_distinct(TransportLabel::Udp, TransportLabel::Tcp);
    labels_are_distinct(TransportLabel::Udp, TransportLabel::Tls);
    labels_are_distinct(TransportLabel::Udp, TransportLabel::Ws);
    labels_are_distinct(TransportLabel::Udp, TransportLabel::Wss);
    labels_are_distinct(TransportLabel::Tcp, TransportLabel::Tls);
    labels_are_distinct(TransportLabel::Tcp, TransportLabel::Ws);
    labels_are_distinct(TransportLabel::Tcp, TransportLabel::Wss);
    labels_are_distinct(TransportLabel::Tls, TransportLabel::Ws);
    labels_are_distinct(TransportLabel::Tls, TransportLabel::Wss);
    labels_are_distinct(TransportLabel::Ws, TransportLabel::Wss);
}

} // verus!
