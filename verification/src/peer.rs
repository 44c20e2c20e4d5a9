//! Who a datagram or a connection came from.

use vstd::prelude::*;

verus! {

/// The network address of a peer: an IP address and a port, and for IPv6
/// the flow label and the scope as well.
///
/// Two values are the same peer exactly when every part agrees; an IPv4
/// address is never the same peer as an IPv6 one.
#[derive(Clone, Copy, Debug, PartialEq, Eq, Hash, Structural)]
#[allow(inconsistent_fields)]
pub enum PeerAddr {
    /// An IPv4 endpoint; `ip` holds the four octets, the first one highest.
    V4 { ip: u32, port: u16 },
    /// An IPv6 endpoint; `ip` holds the sixteen octets, the first one highest.
    V6 { ip: u128, port: u16, flowinfo: u32, scope_id: u32 },
}

} // verus!
