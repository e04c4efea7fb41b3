//! The filters that decide which packets are reported per connection.

use crate::protocols::{AppProtocol, IpVersion, TransProtocol};
use vstd::prelude::*;

verus! {

/// Three independent equality filters; `Other` leaves a filter unset.
#[derive(Clone, Copy, Debug, PartialEq, Eq, Structural)]
pub struct Filters {
    pub ip: IpVersion,
    pub transport: TransProtocol,
    pub application: AppProtocol,
}

impl Filters {
    /// A packet passes when each filter is unset or equals what was observed.
    pub open spec fn passes(
        self,
        network: IpVersion,
        transport: TransProtocol,
        application: AppProtocol,
    ) -> bool {
        &&& (self.ip == IpVersion::Other || self.ip == network)
        &&& (self.transport == TransProtocol::Other || self.transport == transport)
        &&& (self.application == AppProtocol::Other || self.application == application)
    }

    /// Filters that let every packet pass.
    pub fn none() -> (filters: Self)
        ensures
            filters == (Filters {
                ip: IpVersion::Other,
                transport: TransProtocol::Other,
                application: AppProtocol::Other,
            }),
            forall|n: IpVersion, t: TransProtocol, a: AppProtocol| #[trigger] filters.passes(n, t, a),
    {
        Filters {
            ip: IpVersion::Other,
            transport: TransProtocol::Other,
            application: AppProtocol::Other,
        }
    }

    /// Tells whether a packet with the observed protocols passes.
    pub fn matches(
        &self,
        network: IpVersion,
        transport: TransProtocol,
        application: AppProtocol,
    ) -> (pass: bool)
        ensures
            pass == self.passes(network, transport, application),
    {
        (self.ip == IpVersion::Other || self.ip == network) && (self.transport
            == TransProtocol::Other || self.transport == transport) && (self.application
            == AppProtocol::Other || self.application == application)
    }
}

} // verus!
