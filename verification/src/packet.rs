//! A packet as the aggregator takes it.

use crate::address_port_pair::{AddressPortPair, AddressPortPairView};
use crate::classifier::{classification_of, classify_headers, texts, traffic_direction, traffic_type_of};
use crate::filters::Filters;
use crate::headers::{ethernet_frame_headers, parse_ethernet_frame, FrameHeaders};
use crate::protocols::{AppProtocol, TrafficType};
use vstd::prelude::*;

verus! {

/// A packet that was classified and is to be counted.
#[derive(Debug, PartialEq, Eq)]
pub struct PacketInfo {
    /// The connection that the packet belongs to.
    pub key: AddressPortPair,
    /// Bytes that the packet carries.
    pub exchanged_bytes: u128,
    /// Application protocol inferred from the ports.
    pub application_protocol: AppProtocol,
    /// Direction of the packet.
    pub traffic_type: TrafficType,
    /// The packet passed the filters, so it counts for its connection too.
    pub reported: bool,
}

/// A packet as a mathematical value.
pub struct PacketView {
    pub key: AddressPortPairView,
    pub exchanged_bytes: nat,
    pub application_protocol: AppProtocol,
    pub traffic_type: TrafficType,
    pub reported: bool,
}

impl View for PacketInfo {
    type V = PacketView;

    open spec fn view(&self) -> PacketView {
        PacketView {
            key: self.key@,
            exchanged_bytes: self.exchanged_bytes as nat,
            application_protocol: self.application_protocol,
            traffic_type: self.traffic_type,
            reported: self.reported,
        }
    }
}

impl Clone for PacketInfo {
    fn clone(&self) -> (copy: Self)
        ensures
            copy@ == self@,
    {
        PacketInfo {
            key: self.key.clone(),
            exchanged_bytes: self.exchanged_bytes,
            application_protocol: self.application_protocol,
            traffic_type: self.traffic_type,
            reported: self.reported,
        }
    }
}

/// The packet that the headers of a frame give, captured on an interface
/// that owns `interface_addresses`, under `filters`: none where the frame
/// could not be parsed or its classification says to skip it.
pub open spec fn packet_of(
    headers: Option<FrameHeaders>,
    interface_addresses: Seq<Seq<char>>,
    filters: Filters,
) -> Option<PacketView> {
    match headers {
        None => None,
        Some(h) => {
            let c = classification_of(h);
            if c.skip {
                None
            } else {
                Some(
                    PacketView {
                        key: AddressPortPairView {
                            address1: c.address1,
                            port1: c.port1,
                            address2: c.address2,
                            port2: c.port2,
                            trans_protocol: c.transport_protocol,
                        },
                        exchanged_bytes: c.exchanged_bytes as nat,
                        application_protocol: c.application_protocol,
                        traffic_type: traffic_type_of(c.address1, c.address2, interface_addresses),
                        reported: filters.passes(
                            c.network_protocol,
                            c.transport_protocol,
                            c.application_protocol,
                        ),
                    },
                )
            }
        },
    }
}

/// The value of a packet that may be missing.
pub open spec fn packet_view(packet: Option<PacketInfo>) -> Option<PacketView> {
    match packet {
        Some(p) => Some(p@),
        None => None,
    }
}

/// Turns the headers of a frame into a packet to count: classifies them,
/// finds the direction, builds the connection key and applies the filters.
/// Gives nothing where there are no headers or the classification says to
/// skip the packet.
pub fn analyze_headers(
    headers: Option<FrameHeaders>,
    my_interface_addresses: &Vec<String>,
    filters: &Filters,
) -> (packet: Option<PacketInfo>)
    ensures
        packet_view(packet) == packet_of(headers, texts(my_interface_addresses@), *filters),
        packet matches Some(p) ==> p.exchanged_bytes <= u16::MAX,
{
    let headers = match headers {
        Some(h) => h,
        None => {
            return None;
        },
    };
    let c = classify_headers(&headers);
    if c.skip {
        return None;
    }
    let traffic_type = traffic_direction(&c.address1, &c.address2, my_interface_addresses);
    let reported = filters.matches(c.network_protocol, c.transport_protocol, c.application_protocol);
    let key = AddressPortPair::new(c.address1, c.port1, c.address2, c.port2, c.transport_protocol);
    Some(
        PacketInfo {
            key,
            exchanged_bytes: c.exchanged_bytes,
            application_protocol: c.application_protocol,
            traffic_type,
            reported,
        },
    )
}

/// Turns a raw Ethernet frame into a packet to count. The frame is parsed by
/// `etherparse`; what the parser finds goes through `analyze_headers`.
pub fn analyze_frame(frame: &[u8], my_interface_addresses: &Vec<String>, filters: &Filters) -> (packet:
    Option<PacketInfo>)
    ensures
        packet_view(packet) == packet_of(
            ethernet_frame_headers(frame@),
            texts(my_interface_addresses@),
            *filters,
        ),
        packet matches Some(p) ==> p.exchanged_bytes <= u16::MAX,
{
    analyze_headers(parse_ethernet_frame(frame), my_interface_addresses, filters)
}

} // verus!
