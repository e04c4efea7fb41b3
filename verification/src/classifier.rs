//! From headers to classification fields, and from addresses to a direction.

use crate::addresses::{
    broadcast_text, ipv4_text, ipv4_to_string, ipv6_text, ipv6_to_string, is_broadcast_address,
    is_multicast_address, is_multicast_text,
};
use crate::headers::{FrameHeaders, NetworkLayer, TransportLayer};
use crate::protocols::{
    app_protocol_of_ports, from_port_to_application_protocol, AppProtocol, IpVersion, TrafficType,
    TransProtocol,
};
use vstd::prelude::*;

verus! {

/// What the headers of one packet say. Where `skip` is set the packet holds
/// nothing to count, and every other field has its empty value.
#[derive(Debug, PartialEq, Eq)]
pub struct Classification {
    pub exchanged_bytes: u128,
    pub network_protocol: IpVersion,
    pub transport_protocol: TransProtocol,
    pub application_protocol: AppProtocol,
    pub address1: String,
    pub address2: String,
    pub port1: u16,
    pub port2: u16,
    pub skip: bool,
}

/// A classification as a mathematical value.
pub struct ClassificationView {
    pub exchanged_bytes: u128,
    pub network_protocol: IpVersion,
    pub transport_protocol: TransProtocol,
    pub application_protocol: AppProtocol,
    pub address1: Seq<char>,
    pub address2: Seq<char>,
    pub port1: u16,
    pub port2: u16,
    pub skip: bool,
}

impl View for Classification {
    type V = ClassificationView;

    open spec fn view(&self) -> ClassificationView {
        ClassificationView {
            exchanged_bytes: self.exchanged_bytes,
            network_protocol: self.network_protocol,
            transport_protocol: self.transport_protocol,
            application_protocol: self.application_protocol,
            address1: self.address1@,
            address2: self.address2@,
            port1: self.port1,
            port2: self.port2,
            skip: self.skip,
        }
    }
}

/// The classification of a packet to discard.
pub open spec fn skipped() -> ClassificationView {
    ClassificationView {
        exchanged_bytes: 0,
        network_protocol: IpVersion::Other,
        transport_protocol: TransProtocol::Other,
        application_protocol: AppProtocol::Other,
        address1: Seq::empty(),
        address2: Seq::empty(),
        port1: 0,
        port2: 0,
        skip: true,
    }
}

/// The headers carry what a packet needs to be counted: an IPv4 or IPv6
/// header and a UDP or TCP header.
pub open spec fn is_countable(headers: FrameHeaders) -> bool {
    &&& headers.network is Some
    &&& headers.transport matches Some(t)
    &&& (t is Udp || t is Tcp)
}

/// The classification that the headers of a packet give.
pub open spec fn classification_of(headers: FrameHeaders) -> ClassificationView {
    if !is_countable(headers) {
        skipped()
    } else {
        let (port1, port2, transport_protocol) = match headers.transport->0 {
            TransportLayer::Udp(source, destination) => (source, destination, TransProtocol::UDP),
            TransportLayer::Tcp(source, destination) => (source, destination, TransProtocol::TCP),
            _ => (0u16, 0u16, TransProtocol::Other),
        };
        let (address1, address2, length, network_protocol) = match headers.network->0 {
            NetworkLayer::V4(source, destination, length) => (
                ipv4_text(source@),
                ipv4_text(destination@),
                length,
                IpVersion::IPv4,
            ),
            NetworkLayer::V6(source, destination, length) => (
                ipv6_text(source@),
                ipv6_text(destination@),
                length,
                IpVersion::IPv6,
            ),
        };
        ClassificationView {
            exchanged_bytes: length as u128,
            network_protocol,
            transport_protocol,
            application_protocol: app_protocol_of_ports(port1, port2),
            address1,
            address2,
            port1,
            port2,
            skip: false,
        }
    }
}

/// The texts of a list of strings.
pub open spec fn texts(list: Seq<String>) -> Seq<Seq<char>> {
    Seq::new(list.len(), |i: int| list[i]@)
}

/// The direction of a packet between two addresses, seen from an interface
/// that owns `interface_addresses`. The first rule that applies decides.
pub open spec fn traffic_type_of(
    address1: Seq<char>,
    address2: Seq<char>,
    interface_addresses: Seq<Seq<char>>,
) -> TrafficType {
    if interface_addresses.contains(address1) {
        TrafficType::Outgoing
    } else if interface_addresses.contains(address2) {
        TrafficType::Incoming
    } else if is_multicast_text(address2) {
        TrafficType::Multicast
    } else if address2 == broadcast_text() {
        TrafficType::Broadcast
    } else {
        TrafficType::Other
    }
}

/// Builds the classification of a packet to discard.
fn skip_packet() -> (c: Classification)
    ensures
        c@ == skipped(),
{
    Classification {
        exchanged_bytes: 0,
        network_protocol: IpVersion::Other,
        transport_protocol: TransProtocol::Other,
        application_protocol: AppProtocol::Other,
        address1: String::new(),
        address2: String::new(),
        port1: 0,
        port2: 0,
        skip: true,
    }
}

/// Classifies a packet by its headers.
pub fn classify_headers(headers: &FrameHeaders) -> (c: Classification)
    ensures
        c@ == classification_of(*headers),
        c.skip == !is_countable(*headers),
{
    let (port1, port2, transport_protocol) = match headers.transport {
        Some(TransportLayer::Udp(source, destination)) => (source, destination, TransProtocol::UDP),
        Some(TransportLayer::Tcp(source, destination)) => (source, destination, TransProtocol::TCP),
        _ => {
            return skip_packet();
        },
    };
    let (address1, address2, length, network_protocol) = match headers.network {
        Some(NetworkLayer::V4(source, destination, length)) => (
            ipv4_to_string(&source),
            ipv4_to_string(&destination),
            length,
            IpVersion::IPv4,
        ),
        Some(NetworkLayer::V6(source, destination, length)) => (
            ipv6_to_string(&source),
            ipv6_to_string(&destination),
            length,
            IpVersion::IPv6,
        ),
        None => {
            return skip_packet();
        },
    };
    let mut application_protocol = from_port_to_application_protocol(port1);
    if application_protocol == AppProtocol::Other {
        application_protocol = from_port_to_application_protocol(port2);
    }
    Classification {
        exchanged_bytes: length as u128,
        network_protocol,
        transport_protocol,
        application_protocol,
        address1,
        address2,
        port1,
        port2,
        skip: false,
    }
}

/// Tells whether `text` is one of the strings of `list`.
pub fn contains_text(list: &Vec<String>, text: &String) -> (found: bool)
    ensures
        found == texts(list@).contains(text@),
{
    let mut i: usize = 0;
    while i < list.len()
        invariant
            i <= list.len(),
            forall|j: int| 0 <= j < i ==> list@[j]@ != text@,
        decreases list.len() - i,
    {
        if list[i] == *text {
            assert(texts(list@)[i as int] == text@);
            return true;
        }
        i = i + 1;
    }
    false
}

/// Finds the direction of a packet from `address1` to `address2`, captured on
/// an interface that owns `my_interface_addresses`. Addresses are compared
/// as texts, so those of the interface have to be written as
/// `ipv4_to_string` and `ipv6_to_string` write them: IPv4 in dotted
/// decimal, IPv6 in lower case with its longest run of zero groups
/// abbreviated.
pub fn traffic_direction(
    address1: &String,
    address2: &String,
    my_interface_addresses: &Vec<String>,
) -> (direction: TrafficType)
    ensures
        direction == traffic_type_of(address1@, address2@, texts(my_interface_addresses@)),
{
    if contains_text(my_interface_addresses, address1) {
        TrafficType::Outgoing
    } else if contains_text(my_interface_addresses, address2) {
        TrafficType::Incoming
    } else if is_multicast_address(address2.as_str()) {
        TrafficType::Multicast
    } else if is_broadcast_address(address2.as_str()) {
        TrafficType::Broadcast
    } else {
        TrafficType::Other
    }
}

} // verus!
