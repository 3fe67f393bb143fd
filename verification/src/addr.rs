//! Plain-value model of socket addresses.
//!
//! An IPv4 address is held as its 32-bit big-endian integer value and an
//! IPv6 address as its 128-bit value, so that every predicate the mapping
//! and punching logic needs is ordinary arithmetic.

use vstd::prelude::*;

verus! {

/// An IP address: the integer value of the four (respectively sixteen)
/// address octets, most significant first.
#[derive(Clone, Copy, PartialEq, Eq, Structural, Debug)]
pub enum Ip {
    V4(u32),
    V6(u128),
}

/// A socket address: an IP address together with a port.
#[derive(Clone, Copy, PartialEq, Eq, Structural, Debug)]
pub struct Endpoint {
    pub ip: Ip,
    pub port: u16,
}

/// A discovered external endpoint of a mapped socket.
///
/// `nat_restricted` is true when the endpoint was learned from an echo
/// server, and so may be reachable only from the remote that observed it;
/// endpoints read off local interfaces or granted by an IGD gateway are
/// advertised as unrestricted.
#[derive(Clone, Copy, PartialEq, Eq, Structural, Debug)]
pub struct MappedSocketAddr {
    pub addr: Endpoint,
    pub nat_restricted: bool,
}

/// The unspecified (wildcard) address: all octets zero.
pub open spec fn spec_ip_unspecified(ip: Ip) -> bool {
    match ip {
        Ip::V4(a) => a == 0,
        Ip::V6(a) => a == 0,
    }
}

/// A loopback address: 127.0.0.0/8 for IPv4, ::1 for IPv6.
pub open spec fn spec_ip_loopback(ip: Ip) -> bool {
    match ip {
        Ip::V4(a) => a / 0x1000000 == 127,
        Ip::V6(a) => a == 1,
    }
}

/// Whether `ip` is the unspecified (wildcard) address.
pub fn ip_is_unspecified(ip: &Ip) -> (r: bool)
    ensures
        r == spec_ip_unspecified(*ip),
{
    match ip {
        Ip::V4(a) => *a == 0,
        Ip::V6(a) => *a == 0,
    }
}

/// Whether `ip` is a loopback address.
pub fn ip_is_loopback(ip: &Ip) -> (r: bool)
    ensures
        r == spec_ip_loopback(*ip),
{
    match ip {
        Ip::V4(a) => *a / 0x1000000 == 127,
        Ip::V6(a) => *a == 1,
    }
}

} // verus!
