//! Live-traffic analysis core of a network monitor: packet classification,
//! a traffic aggregator with stable connection indices, a capture worker with
//! cooperative cancellation, and a threshold-based notification log.

pub mod address_port_pair;
pub mod addresses;
pub mod capture;
pub mod classifier;
pub mod clock;
pub mod countries;
pub mod filters;
pub mod headers;
pub mod info_address_port_pair;
pub mod info_traffic;
pub mod notifications;
pub mod packet;
pub mod protocols;
pub mod text;
