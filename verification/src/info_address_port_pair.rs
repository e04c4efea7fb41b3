//! What is known of one connection.

use crate::clock::Timestamp;
use crate::protocols::{AppProtocol, TrafficType};
use vstd::prelude::*;

verus! {

/// The record of one connection.
#[derive(Debug, PartialEq, Eq)]
pub struct InfoAddressPortPair {
    /// Bytes carried by the packets counted so far.
    pub transmitted_bytes: u128,
    /// Packets counted so far.
    pub transmitted_packets: u128,
    /// When the first packet was counted.
    pub initial_timestamp: Timestamp,
    /// When the latest packet was counted.
    pub final_timestamp: Timestamp,
    /// Application protocol of the first packet.
    pub app_protocol: AppProtocol,
    /// An address of the connection has more than 25 characters.
    pub very_long_address: bool,
    /// Direction of the first packet.
    pub traffic_type: TrafficType,
    /// Country code found for the remote address; empty where none was.
    pub country: String,
    /// Position of the connection in the order of first appearance.
    pub index: usize,
    /// The connection was marked as a favorite.
    pub is_favorite: bool,
}

/// A connection record as a mathematical value.
pub struct InfoAddressPortPairView {
    pub transmitted_bytes: nat,
    pub transmitted_packets: nat,
    pub initial_timestamp: Timestamp,
    pub final_timestamp: Timestamp,
    pub app_protocol: AppProtocol,
    pub very_long_address: bool,
    pub traffic_type: TrafficType,
    pub country: Seq<char>,
    pub index: nat,
    pub is_favorite: bool,
}

impl View for InfoAddressPortPair {
    type V = InfoAddressPortPairView;

    open spec fn view(&self) -> InfoAddressPortPairView {
        InfoAddressPortPairView {
            transmitted_bytes: self.transmitted_bytes as nat,
            transmitted_packets: self.transmitted_packets as nat,
            initial_timestamp: self.initial_timestamp,
            final_timestamp: self.final_timestamp,
            app_protocol: self.app_protocol,
            very_long_address: self.very_long_address,
            traffic_type: self.traffic_type,
            country: self.country@,
            index: self.index as nat,
            is_favorite: self.is_favorite,
        }
    }
}

impl Clone for InfoAddressPortPair {
    fn clone(&self) -> (copy: Self)
        ensures
            copy@ == self@,
    {
        InfoAddressPortPair {
            transmitted_bytes: self.transmitted_bytes,
            transmitted_packets: self.transmitted_packets,
            initial_timestamp: self.initial_timestamp,
            final_timestamp: self.final_timestamp,
            app_protocol: self.app_protocol,
            very_long_address: self.very_long_address,
            traffic_type: self.traffic_type,
            country: self.country.clone(),
            index: self.index,
            is_favorite: self.is_favorite,
        }
    }
}

} // verus!
