//! Network addresses as plain values.
use vstd::prelude::*;

verus! {

/// An IP address.
#[derive(Debug, Clone, Copy, PartialEq, Eq, Structural)]
pub enum IpAddr {
    V4(u32),
    V6(u128),
}

impl IpAddr {
    /// The address that binds every interface.
    pub open spec fn unspecified(self) -> bool {
        self == IpAddr::V4(0) || self == IpAddr::V6(0)
    }

    /// Whether this is `0.0.0.0` or `::`.
    pub fn is_unspecified(self) -> (r: bool)
        ensures
            r == self.unspecified(),
    {
        match self {
            IpAddr::V4(n) => n == 0,
            IpAddr::V6(n) => n == 0,
        }
    }
}

/// An address and a port.
#[derive(Debug, Clone, Copy, PartialEq, Eq, Structural)]
pub struct SocketAddr {
    pub ip: IpAddr,
    pub port: u16,
}

/// A socket address: its parts, and its printed form.
#[derive(Debug)]
pub struct Endpoint {
    pub ip: IpAddr,
    pub port: u16,
    pub text: String,
}

impl Endpoint {
    /// The conventional placeholder for an address that is not known.
    pub open spec fn is_placeholder(self) -> bool {
        self.ip == IpAddr::V4(0) && self.port == 0 && self.text@ == "0.0.0.0:0"@
    }

    /// The placeholder `0.0.0.0:0`.
    pub fn placeholder() -> (r: Self)
        ensures
            r.is_placeholder(),
    {
        Endpoint { ip: IpAddr::V4(0), port: 0, text: "0.0.0.0:0".to_owned() }
    }
}

impl Clone for Endpoint {
    fn clone(&self) -> (r: Self)
        ensures
            r == *self,
    {
        Endpoint { ip: self.ip, port: self.port, text: self.text.clone() }
    }
}

/// Whether `ip` is one of `ips`.
pub fn contains_ip(ips: &Vec<IpAddr>, ip: IpAddr) -> (r: bool)
    ensures
        r == ips@.contains(ip),
{
    let mut i: usize = 0;
    while i < ips.len()
        invariant
            i <= ips@.len(),
            forall|k: int| 0 <= k < i ==> ips@[k] != ip,
        decreases ips@.len() - i,
    {
        if ips[i] == ip {
            return true;
        }
        i += 1;
    }
    false
}

/// The wildcards are the two zero addresses; an address is in a list exactly when it stands
/// somewhere in it; and the placeholder is the zero address and port.
pub proof fn an_address_is_in_the_lists_that_have_it(
    ip: IpAddr,
    wild: bool,
    ips: &Vec<IpAddr>,
    r: bool,
    p: Endpoint,
    i: int,
)
    requires
        call_ensures(IpAddr::is_unspecified, (ip,), wild),
        call_ensures(contains_ip, (ips, ip), r),
        call_ensures(Endpoint::placeholder, (), p),
    ensures
        wild <==> ip == IpAddr::V4(0) || ip == IpAddr::V6(0),
        0 <= i < ips@.len() && ips@[i] == ip ==> r,
        r ==> exists|k: int| 0 <= k < ips@.len() && ips@[k] == ip,
        p.ip == IpAddr::V4(0) && p.port == 0 && p.text@ == "0.0.0.0:0"@,
{
}

} // verus!
