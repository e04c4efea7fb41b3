//! The country of a connection: which address is looked up, and what is
//! stored for the answer. The lookup itself is made by the caller, who owns
//! the country database.

use crate::address_port_pair::{AddressPortPair, AddressPortPairView};
use crate::protocols::TrafficType;
use vstd::prelude::*;

verus! {

/// The address of the remote endpoint of a connection: the second address
/// for an outgoing packet, the first for any other.
pub open spec fn remote_address(traffic_type: TrafficType, key: AddressPortPairView) -> Seq<char> {
    if traffic_type == TrafficType::Outgoing {
        key.address2
    } else {
        key.address1
    }
}

/// The country code to store for the answer of the database: the code that
/// was found, else the empty string.
pub open spec fn stored_country(found: Option<Seq<char>>) -> Seq<char> {
    match found {
        Some(code) => code,
        None => Seq::empty(),
    }
}

/// Picks the address to look up in the country database.
pub fn address_to_lookup(traffic_type: TrafficType, key: &AddressPortPair) -> (address: &String)
    ensures
        address@ == remote_address(traffic_type, key@),
{
    if traffic_type == TrafficType::Outgoing {
        &key.address2
    } else {
        &key.address1
    }
}

/// Turns the answer of the country database into the code to store: a
/// lookup that found nothing gives the empty string.
pub fn country_code_of(found: Option<String>) -> (country: String)
    ensures
        country@ == stored_country(
            match found {
                Some(code) => Some(code@),
                None => None,
            },
        ),
{
    match found {
        Some(code) => code,
        None => String::new(),
    }
}

} // verus!
