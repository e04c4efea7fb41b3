//! The header fields that classification reads, and the frame parser that
//! yields them.

use etherparse::{IpHeader, PacketHeaders, TransportHeader};
use vstd::prelude::*;

verus! {

/// Network-layer header of a frame: source address, destination address and
/// payload length, in that order.
#[derive(Clone, Copy, Debug, PartialEq, Eq)]
pub enum NetworkLayer {
    V4([u8; 4], [u8; 4], u16),
    V6([u8; 16], [u8; 16], u16),
}

/// Transport-layer header of a frame; for UDP and TCP the source port, then
/// the destination port.
#[derive(Clone, Copy, Debug, PartialEq, Eq)]
pub enum TransportLayer {
    Udp(u16, u16),
    Tcp(u16, u16),
    Icmpv4,
    Icmpv6,
}

/// The headers found in one frame. A layer is `None` where the frame has no
/// header of a supported kind at that layer.
#[derive(Clone, Copy, Debug, PartialEq, Eq)]
pub struct FrameHeaders {
    pub network: Option<NetworkLayer>,
    pub transport: Option<TransportLayer>,
}

/// What `etherparse::PacketHeaders::from_ethernet_slice` finds in the bytes of
/// an Ethernet II frame: `None` where it reports an error.
pub uninterp spec fn ethernet_frame_headers(frame: Seq<u8>) -> Option<FrameHeaders>;

/// Calls `etherparse::PacketHeaders::from_ethernet_slice` on `frame`. Not
/// verified: the contract gives the outcome its name, `ethernet_frame_headers`,
/// and claims that the parser returns on every slice, with an error where the
/// bytes are no valid frame.
#[verifier::external_body]
pub(crate) fn parse_ethernet_frame(frame: &[u8]) -> (headers: Option<FrameHeaders>)
    ensures
        headers == ethernet_frame_headers(frame@),
{
    let parsed = PacketHeaders::from_ethernet_slice(frame).ok()?;
    Some(FrameHeaders {
        network: match parsed.ip {
            Some(IpHeader::Version4(h, _)) => Some(NetworkLayer::V4(h.source, h.destination, h.payload_len)),
            Some(IpHeader::Version6(h, _)) => Some(NetworkLayer::V6(h.source, h.destination, h.payload_length)),
            None => None,
        },
        transport: match parsed.transport {
            Some(TransportHeader::Udp(h)) => Some(TransportLayer::Udp(h.source_port, h.destination_port)),
            Some(TransportHeader::Tcp(h)) => Some(TransportLayer::Tcp(h.source_port, h.destination_port)),
            Some(TransportHeader::Icmpv4(_)) => Some(TransportLayer::Icmpv4),
            Some(TransportHeader::Icmpv6(_)) => Some(TransportLayer::Icmpv6),
            None => None,
        },
    })
}

} // verus!
