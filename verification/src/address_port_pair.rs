//! The key that identifies a connection.

use crate::protocols::TransProtocol;
use vstd::prelude::*;

verus! {

/// Two endpoints and the transport protocol between them. The order of the
/// endpoints is that of the packet headers: the first is the source.
#[derive(Debug, PartialEq, Eq, PartialOrd, Ord, Hash)]
pub struct AddressPortPair {
    pub address1: String,
    pub port1: u16,
    pub address2: String,
    pub port2: u16,
    pub trans_protocol: TransProtocol,
}

/// A connection key as a mathematical value.
pub struct AddressPortPairView {
    pub address1: Seq<char>,
    pub port1: u16,
    pub address2: Seq<char>,
    pub port2: u16,
    pub trans_protocol: TransProtocol,
}

impl View for AddressPortPair {
    type V = AddressPortPairView;

    open spec fn view(&self) -> AddressPortPairView {
        AddressPortPairView {
            address1: self.address1@,
            port1: self.port1,
            address2: self.address2@,
            port2: self.port2,
            trans_protocol: self.trans_protocol,
        }
    }
}

impl AddressPortPairView {
    /// One of the two address texts has more than 25 characters.
    pub open spec fn very_long_address(self) -> bool {
        self.address1.len() > 25 || self.address2.len() > 25
    }
}

impl Clone for AddressPortPair {
    fn clone(&self) -> (copy: Self)
        ensures
            copy@ == self@,
    {
        AddressPortPair {
            address1: self.address1.clone(),
            port1: self.port1,
            address2: self.address2.clone(),
            port2: self.port2,
            trans_protocol: self.trans_protocol,
        }
    }
}

impl AddressPortPair {
    /// Builds a key from its parts.
    pub fn new(
        address1: String,
        port1: u16,
        address2: String,
        port2: u16,
        trans_protocol: TransProtocol,
    ) -> (key: Self)
        ensures
            key@ == (AddressPortPairView {
                address1: address1@,
                port1,
                address2: address2@,
                port2,
                trans_protocol,
            }),
    {
        AddressPortPair { address1, port1, address2, port2, trans_protocol }
    }

    /// Tells whether two keys identify the same connection.
    pub fn equals(&self, other: &AddressPortPair) -> (same: bool)
        ensures
            same == (self@ == other@),
    {
        self.port1 == other.port1 && self.port2 == other.port2 && self.trans_protocol
            == other.trans_protocol && self.address1 == other.address1 && self.address2
            == other.address2
    }
}

} // verus!
