//! Closed sets of tags for protocols and traffic directions.
//!
//! In a filter, `Other` is the wildcard: it matches every observed value.

use vstd::prelude::*;

verus! {

/// Network-layer protocol.
#[derive(Clone, Copy, Debug, PartialEq, Eq, Hash, Structural)]
pub enum IpVersion {
    IPv4,
    IPv6,
    Other,
}

/// Transport-layer protocol.
#[derive(Clone, Copy, Debug, PartialEq, Eq, PartialOrd, Ord, Hash, Structural)]
pub enum TransProtocol {
    TCP,
    UDP,
    Other,
}

/// Direction of a packet, as seen from the capturing interface.
#[derive(Clone, Copy, Debug, PartialEq, Eq, Hash, Structural)]
pub enum TrafficType {
    Incoming,
    Outgoing,
    Multicast,
    Broadcast,
    Other,
}

/// Application-layer protocol, inferred from a well-known port.
#[derive(Clone, Copy, Debug, PartialEq, Eq, Hash, Structural)]
pub enum AppProtocol {
    FTP,
    SSH,
    Telnet,
    SMTP,
    TACACS,
    DNS,
    DHCP,
    TFTP,
    HTTP,
    POP,
    NTP,
    NetBIOS,
    POP3S,
    IMAP,
    SNMP,
    BGP,
    LDAP,
    HTTPS,
    LDAPS,
    FTPS,
    IMAPS,
    SSDP,
    XMPP,
    MDNS,
    Other,
}

/// Number of application protocol tags, `Other` included.
pub const APP_PROTOCOL_COUNT: usize = 25;

/// The application protocol registered for `port`; `Other` where none is.
pub open spec fn app_protocol_of_port(port: u16) -> AppProtocol {
    if 20 <= port <= 21 {
        AppProtocol::FTP
    } else if port == 22 {
        AppProtocol::SSH
    } else if port == 23 {
        AppProtocol::Telnet
    } else if port == 25 {
        AppProtocol::SMTP
    } else if port == 49 {
        AppProtocol::TACACS
    } else if port == 53 {
        AppProtocol::DNS
    } else if 67 <= port <= 68 {
        AppProtocol::DHCP
    } else if port == 69 {
        AppProtocol::TFTP
    } else if port == 80 {
        AppProtocol::HTTP
    } else if 109 <= port <= 110 {
        AppProtocol::POP
    } else if port == 123 {
        AppProtocol::NTP
    } else if 137 <= port <= 139 {
        AppProtocol::NetBIOS
    } else if port == 143 || port == 220 {
        AppProtocol::IMAP
    } else if 161 <= port <= 162 || port == 199 {
        AppProtocol::SNMP
    } else if port == 179 {
        AppProtocol::BGP
    } else if port == 389 {
        AppProtocol::LDAP
    } else if port == 443 {
        AppProtocol::HTTPS
    } else if port == 636 {
        AppProtocol::LDAPS
    } else if 989 <= port <= 990 {
        AppProtocol::FTPS
    } else if port == 993 {
        AppProtocol::IMAPS
    } else if port == 995 {
        AppProtocol::POP3S
    } else if port == 1900 {
        AppProtocol::SSDP
    } else if port == 5222 {
        AppProtocol::XMPP
    } else if port == 5353 {
        AppProtocol::MDNS
    } else {
        AppProtocol::Other
    }
}

/// The application protocol of a packet between two ports: that of the first
/// port where it has one, else that of the second.
pub open spec fn app_protocol_of_ports(port1: u16, port2: u16) -> AppProtocol {
    if app_protocol_of_port(port1) != AppProtocol::Other {
        app_protocol_of_port(port1)
    } else {
        app_protocol_of_port(port2)
    }
}

/// Maps a port to the application protocol registered for it.
pub fn from_port_to_application_protocol(port: u16) -> (protocol: AppProtocol)
    ensures
        protocol == app_protocol_of_port(port),
{
    match port {
        20..=21 => AppProtocol::FTP,
        22 => AppProtocol::SSH,
        23 => AppProtocol::Telnet,
        25 => AppProtocol::SMTP,
        49 => AppProtocol::TACACS,
        53 => AppProtocol::DNS,
        67..=68 => AppProtocol::DHCP,
        69 => AppProtocol::TFTP,
        80 => AppProtocol::HTTP,
        109..=110 => AppProtocol::POP,
        123 => AppProtocol::NTP,
        137..=139 => AppProtocol::NetBIOS,
        143 | 220 => AppProtocol::IMAP,
        161..=162 | 199 => AppProtocol::SNMP,
        179 => AppProtocol::BGP,
        389 => AppProtocol::LDAP,
        443 => AppProtocol::HTTPS,
        636 => AppProtocol::LDAPS,
        989..=990 => AppProtocol::FTPS,
        993 => AppProtocol::IMAPS,
        995 => AppProtocol::POP3S,
        1900 => AppProtocol::SSDP,
        5222 => AppProtocol::XMPP,
        5353 => AppProtocol::MDNS,
        _ => AppProtocol::Other,
    }
}

impl AppProtocol {
    /// Position of the tag in the declaration order.
    pub open spec fn ordinal(self) -> int {
        match self {
            AppProtocol::FTP => 0,
            AppProtocol::SSH => 1,
            AppProtocol::Telnet => 2,
            AppProtocol::SMTP => 3,
            AppProtocol::TACACS => 4,
            AppProtocol::DNS => 5,
            AppProtocol::DHCP => 6,
            AppProtocol::TFTP => 7,
            AppProtocol::HTTP => 8,
            AppProtocol::POP => 9,
            AppProtocol::NTP => 10,
            AppProtocol::NetBIOS => 11,
            AppProtocol::POP3S => 12,
            AppProtocol::IMAP => 13,
            AppProtocol::SNMP => 14,
            AppProtocol::BGP => 15,
            AppProtocol::LDAP => 16,
            AppProtocol::HTTPS => 17,
            AppProtocol::LDAPS => 18,
            AppProtocol::FTPS => 19,
            AppProtocol::IMAPS => 20,
            AppProtocol::SSDP => 21,
            AppProtocol::XMPP => 22,
            AppProtocol::MDNS => 23,
            AppProtocol::Other => 24,
        }
    }

    /// Computes `ordinal`.
    pub fn index(self) -> (i: usize)
        ensures
            i == self.ordinal(),
            i < APP_PROTOCOL_COUNT,
    {
        match self {
            AppProtocol::FTP => 0,
            AppProtocol::SSH => 1,
            AppProtocol::Telnet => 2,
            AppProtocol::SMTP => 3,
            AppProtocol::TACACS => 4,
            AppProtocol::DNS => 5,
            AppProtocol::DHCP => 6,
            AppProtocol::TFTP => 7,
            AppProtocol::HTTP => 8,
            AppProtocol::POP => 9,
            AppProtocol::NTP => 10,
            AppProtocol::NetBIOS => 11,
            AppProtocol::POP3S => 12,
            AppProtocol::IMAP => 13,
            AppProtocol::SNMP => 14,
            AppProtocol::BGP => 15,
            AppProtocol::LDAP => 16,
            AppProtocol::HTTPS => 17,
            AppProtocol::LDAPS => 18,
            AppProtocol::FTPS => 19,
            AppProtocol::IMAPS => 20,
            AppProtocol::SSDP => 21,
            AppProtocol::XMPP => 22,
            AppProtocol::MDNS => 23,
            AppProtocol::Other => 24,
        }
    }
}

} // verus!
