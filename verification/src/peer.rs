//! The address of the remote endpoint, held as plain values.

use vstd::prelude::*;

verus! {

/// A socket address: an IP address of either family with its port.
///
/// The fields are those of a version 4 or version 6 socket address, so a
/// caller that owns a real socket can convert in both directions without
/// loss.
#[derive(Clone, Copy, Debug, PartialEq, Eq)]
pub enum PeerAddr {
    V4 { octets: [u8; 4], port: u16 },
    V6 { segments: [u16; 8], port: u16, flowinfo: u32, scope_id: u32 },
}

impl PeerAddr {
    /// True when `self` is the unspecified address of the family of `peer`
    /// with port zero: `0.0.0.0:0` for version 4 and `[::]:0` for version 6.
    pub open spec fn is_wildcard_of(self, peer: PeerAddr) -> bool {
        match self {
            PeerAddr::V4 { octets, port } => {
                &&& peer is V4
                &&& port == 0
                &&& octets@ == seq![0u8, 0u8, 0u8, 0u8]
            },
            PeerAddr::V6 { segments, port, flowinfo, scope_id } => {
                &&& peer is V6
                &&& port == 0
                &&& flowinfo == 0
                &&& scope_id == 0
                &&& segments@ == seq![0u16, 0u16, 0u16, 0u16, 0u16, 0u16, 0u16, 0u16]
            },
        }
    }

    /// The local address a client binds to reach `self`: any interface and
    /// any port, in the family of `self`. Binding in the peer's own family
    /// keeps the socket usable on systems that do not serve both families
    /// from one wildcard.
    pub fn bind_wildcard(&self) -> (local: PeerAddr)
        ensures
            local.is_wildcard_of(*self),
    {
        match self {
            PeerAddr::V4 { .. } => {
                let octets: [u8; 4] = [0, 0, 0, 0];
                assert(octets@ =~= seq![0u8, 0u8, 0u8, 0u8]);
                PeerAddr::V4 { octets, port: 0 }
            },
            PeerAddr::V6 { .. } => {
                let segments: [u16; 8] = [0, 0, 0, 0, 0, 0, 0, 0];
                assert(segments@ =~= seq![0u16, 0u16, 0u16, 0u16, 0u16, 0u16, 0u16, 0u16]);
                PeerAddr::V6 { segments, port: 0, flowinfo: 0, scope_id: 0 }
            },
        }
    }
}

} // verus!
