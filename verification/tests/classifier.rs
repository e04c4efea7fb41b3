use traffic_monitor::addresses::{
    ipv4_to_string, ipv6_to_string, is_broadcast_address, is_multicast_address,
};
use traffic_monitor::classifier::{classify_headers, contains_text, traffic_direction};
use traffic_monitor::filters::Filters;
use traffic_monitor::headers::{FrameHeaders, NetworkLayer, TransportLayer};
use traffic_monitor::packet::{analyze_frame, analyze_headers};
use traffic_monitor::protocols::{
    from_port_to_application_protocol, AppProtocol, IpVersion, TrafficType, TransProtocol,
};

fn tcp_v4_frame(source: [u8; 4], source_port: u16, destination: [u8; 4], destination_port: u16, payload: &[u8]) -> Vec<u8> {
    let builder = etherparse::PacketBuilder::ethernet2([1, 2, 3, 4, 5, 6], [7, 8, 9, 10, 11, 12])
        .ipv4(source, destination, 64)
        .tcp(source_port, destination_port, 1000, 1024);
    let mut frame = Vec::with_capacity(builder.size(payload.len()));
    builder.write(&mut frame, payload).unwrap();
    frame
}

fn udp_v6_frame(source: [u8; 16], source_port: u16, destination: [u8; 16], destination_port: u16, payload: &[u8]) -> Vec<u8> {
    let builder = etherparse::PacketBuilder::ethernet2([1, 2, 3, 4, 5, 6], [7, 8, 9, 10, 11, 12])
        .ipv6(source, destination, 64)
        .udp(source_port, destination_port);
    let mut frame = Vec::with_capacity(builder.size(payload.len()));
    builder.write(&mut frame, payload).unwrap();
    frame
}

fn strings(list: &[&str]) -> Vec<String> {
    list.iter().map(|s| s.to_string()).collect()
}

#[test]
fn well_known_ports_map_to_their_protocols() {
    assert_eq!(from_port_to_application_protocol(20), AppProtocol::FTP);
    assert_eq!(from_port_to_application_protocol(21), AppProtocol::FTP);
    assert_eq!(from_port_to_application_protocol(22), AppProtocol::SSH);
    assert_eq!(from_port_to_application_protocol(53), AppProtocol::DNS);
    assert_eq!(from_port_to_application_protocol(67), AppProtocol::DHCP);
    assert_eq!(from_port_to_application_protocol(80), AppProtocol::HTTP);
    assert_eq!(from_port_to_application_protocol(138), AppProtocol::NetBIOS);
    assert_eq!(from_port_to_application_protocol(143), AppProtocol::IMAP);
    assert_eq!(from_port_to_application_protocol(220), AppProtocol::IMAP);
    assert_eq!(from_port_to_application_protocol(199), AppProtocol::SNMP);
    assert_eq!(from_port_to_application_protocol(443), AppProtocol::HTTPS);
    assert_eq!(from_port_to_application_protocol(990), AppProtocol::FTPS);
    assert_eq!(from_port_to_application_protocol(5353), AppProtocol::MDNS);
}

#[test]
fn other_ports_map_to_no_protocol() {
    assert_eq!(from_port_to_application_protocol(0), AppProtocol::Other);
    assert_eq!(from_port_to_application_protocol(19), AppProtocol::Other);
    assert_eq!(from_port_to_application_protocol(24), AppProtocol::Other);
    assert_eq!(from_port_to_application_protocol(51000), AppProtocol::Other);
    assert_eq!(from_port_to_application_protocol(65535), AppProtocol::Other);
}

#[test]
fn ipv4_addresses_are_written_in_dotted_decimal() {
    assert_eq!(ipv4_to_string(&[10, 0, 0, 5]), "10.0.0.5");
    assert_eq!(ipv4_to_string(&[203, 0, 113, 9]), "203.0.113.9");
    assert_eq!(ipv4_to_string(&[255, 255, 255, 255]), "255.255.255.255");
    assert_eq!(ipv4_to_string(&[0, 0, 0, 0]), "0.0.0.0");
    assert_eq!(ipv4_to_string(&[192, 168, 100, 99]), "192.168.100.99");
}

fn ipv6_of_groups(groups: [u16; 8]) -> [u8; 16] {
    let mut octets = [0u8; 16];
    for (i, group) in groups.iter().enumerate() {
        octets[2 * i] = (group >> 8) as u8;
        octets[2 * i + 1] = (group & 0xff) as u8;
    }
    octets
}

#[test]
fn ipv6_addresses_are_written_in_hexadecimal_groups() {
    let text = |groups: [u16; 8]| ipv6_to_string(&ipv6_of_groups(groups));
    assert_eq!(
        text([0x2001, 0xdb8, 0xff, 0xa0b, 0x1234, 0xffff, 0xf, 0xabcd]),
        "2001:db8:ff:a0b:1234:ffff:f:abcd"
    );
    assert_eq!(text([1, 2, 3, 4, 5, 6, 7, 8]), "1:2:3:4:5:6:7:8");
    assert_eq!(
        text([0xffff, 0xffff, 0xffff, 0xffff, 0xffff, 0xffff, 0xffff, 0xffff]),
        "ffff:ffff:ffff:ffff:ffff:ffff:ffff:ffff"
    );
    assert_eq!(text([0x10, 0x100, 0x1000, 0xa, 0xa0, 0xa00, 0xa000, 0x1]), "10:100:1000:a:a0:a00:a000:1");
}

#[test]
fn the_longest_run_of_zero_groups_is_abbreviated() {
    let text = |groups: [u16; 8]| ipv6_to_string(&ipv6_of_groups(groups));
    assert_eq!(text([0, 0, 0, 0, 0, 0, 0, 0]), "::");
    assert_eq!(text([0, 0, 0, 0, 0, 0, 0, 1]), "::1");
    assert_eq!(text([1, 0, 0, 0, 0, 0, 0, 0]), "1::");
    assert_eq!(text([0xfe80, 0, 0, 0, 0, 0, 0, 1]), "fe80::1");
    assert_eq!(text([0xff02, 0, 0, 0, 0, 0, 0, 0xfb]), "ff02::fb");
    assert_eq!(text([0x2001, 0xdb8, 0, 0, 1, 0, 0, 1]), "2001:db8::1:0:0:1");
    assert_eq!(text([1, 0, 0, 2, 0, 0, 0, 3]), "1:0:0:2::3");
    assert_eq!(text([0, 0, 1, 0, 0, 2, 3, 4]), "::1:0:0:2:3:4");
    assert_eq!(text([1, 2, 3, 4, 5, 6, 0, 0]), "1:2:3:4:5:6::");
    assert_eq!(text([0, 0, 0, 1, 0, 0, 0, 0]), "0:0:0:1::");
}

#[test]
fn a_single_zero_group_is_written_out() {
    let text = |groups: [u16; 8]| ipv6_to_string(&ipv6_of_groups(groups));
    assert_eq!(text([1, 0, 2, 3, 4, 5, 6, 7]), "1:0:2:3:4:5:6:7");
    assert_eq!(text([0, 1, 0, 1, 0, 1, 0, 1]), "0:1:0:1:0:1:0:1");
    assert_eq!(text([1, 2, 3, 4, 5, 6, 7, 0]), "1:2:3:4:5:6:7:0");
}

#[test]
fn the_text_of_an_address_tells_whether_it_is_multicast() {
    for first in 0..=255u8 {
        let v4 = ipv4_to_string(&[first, 1, 2, 3]);
        assert_eq!(is_multicast_address(&v4), (224..=239).contains(&first));
        for second in [0u8, 1, 0x0f, 0xff] {
            let mut octets = [0u8; 16];
            octets[0] = first;
            octets[1] = second;
            assert_eq!(is_multicast_address(&ipv6_to_string(&octets)), first == 255);
            octets[15] = 1;
            octets[9] = 7;
            assert_eq!(is_multicast_address(&ipv6_to_string(&octets)), first == 255);
        }
    }
}

#[test]
fn multicast_addresses_are_recognized() {
    assert!(is_multicast_address("224.0.0.251"));
    assert!(is_multicast_address("239.255.255.250"));
    assert!(is_multicast_address("ff02:0:0:0:0:0:0:fb"));
    assert!(is_multicast_address("ff02::fb"));
    assert!(is_multicast_address("FF02::1"));
    assert!(!is_multicast_address("223.255.255.255"));
    assert!(!is_multicast_address("240.0.0.1"));
    assert!(!is_multicast_address("10.0.0.5"));
    assert!(!is_multicast_address("22.4.0.1"));
    assert!(!is_multicast_address("fe80:0:0:0:0:0:0:1"));
    assert!(!is_multicast_address("ff:0:0:0:0:0:0:1"));
    assert!(!is_multicast_address("ff::1"));
    assert!(!is_multicast_address("::ff02"));
    assert!(!is_multicast_address(""));
    assert!(!is_multicast_address("224"));
    assert!(!is_multicast_address("2é4.0.0.1"));
}

#[test]
fn only_the_limited_broadcast_address_is_broadcast() {
    assert!(is_broadcast_address("255.255.255.255"));
    assert!(!is_broadcast_address("255.255.255.254"));
    assert!(!is_broadcast_address("192.168.1.255"));
    assert!(!is_broadcast_address("255.255.255.2555"));
    assert!(!is_broadcast_address(""));
}

#[test]
fn classification_reads_the_fields_of_a_tcp_packet() {
    let headers = FrameHeaders {
        network: Some(NetworkLayer::V4([10, 0, 0, 5], [203, 0, 113, 9], 1460)),
        transport: Some(TransportLayer::Tcp(443, 51000)),
    };
    let c = classify_headers(&headers);
    assert!(!c.skip);
    assert_eq!(c.exchanged_bytes, 1460);
    assert_eq!(c.network_protocol, IpVersion::IPv4);
    assert_eq!(c.transport_protocol, TransProtocol::TCP);
    assert_eq!(c.application_protocol, AppProtocol::HTTPS);
    assert_eq!(c.address1, "10.0.0.5");
    assert_eq!(c.address2, "203.0.113.9");
    assert_eq!(c.port1, 443);
    assert_eq!(c.port2, 51000);
}

#[test]
fn classification_reads_the_fields_of_a_udp_packet_over_ipv6() {
    let mut source = [0u8; 16];
    source[0] = 0xfe;
    source[1] = 0x80;
    source[15] = 2;
    let mut destination = [0u8; 16];
    destination[0] = 0xff;
    destination[1] = 0x02;
    destination[15] = 0xfb;
    let headers = FrameHeaders {
        network: Some(NetworkLayer::V6(source, destination, 90)),
        transport: Some(TransportLayer::Udp(5353, 5353)),
    };
    let c = classify_headers(&headers);
    assert!(!c.skip);
    assert_eq!(c.exchanged_bytes, 90);
    assert_eq!(c.network_protocol, IpVersion::IPv6);
    assert_eq!(c.transport_protocol, TransProtocol::UDP);
    assert_eq!(c.application_protocol, AppProtocol::MDNS);
    assert_eq!(c.address1, "fe80::2");
    assert_eq!(c.address2, "ff02::fb");
}

#[test]
fn the_application_protocol_comes_from_either_port() {
    let to_server = FrameHeaders {
        network: Some(NetworkLayer::V4([10, 0, 0, 5], [1, 1, 1, 1], 60)),
        transport: Some(TransportLayer::Udp(40000, 53)),
    };
    let from_server = FrameHeaders {
        network: Some(NetworkLayer::V4([1, 1, 1, 1], [10, 0, 0, 5], 60)),
        transport: Some(TransportLayer::Udp(53, 40000)),
    };
    assert_eq!(classify_headers(&to_server).application_protocol, AppProtocol::DNS);
    assert_eq!(classify_headers(&from_server).application_protocol, AppProtocol::DNS);
    let both = FrameHeaders {
        network: Some(NetworkLayer::V4([1, 1, 1, 1], [10, 0, 0, 5], 60)),
        transport: Some(TransportLayer::Tcp(22, 80)),
    };
    assert_eq!(classify_headers(&both).application_protocol, AppProtocol::SSH);
    let neither = FrameHeaders {
        network: Some(NetworkLayer::V4([1, 1, 1, 1], [10, 0, 0, 5], 60)),
        transport: Some(TransportLayer::Tcp(40000, 40001)),
    };
    assert_eq!(classify_headers(&neither).application_protocol, AppProtocol::Other);
}

#[test]
fn packets_without_usable_headers_are_skipped() {
    let no_network = FrameHeaders { network: None, transport: Some(TransportLayer::Tcp(1, 2)) };
    let no_transport = FrameHeaders {
        network: Some(NetworkLayer::V4([10, 0, 0, 5], [1, 1, 1, 1], 60)),
        transport: None,
    };
    let icmp = FrameHeaders {
        network: Some(NetworkLayer::V4([10, 0, 0, 5], [1, 1, 1, 1], 60)),
        transport: Some(TransportLayer::Icmpv4),
    };
    let icmp6 = FrameHeaders {
        network: Some(NetworkLayer::V6([0; 16], [0; 16], 60)),
        transport: Some(TransportLayer::Icmpv6),
    };
    let nothing = FrameHeaders { network: None, transport: None };
    for headers in [no_network, no_transport, icmp, icmp6, nothing] {
        let c = classify_headers(&headers);
        assert!(c.skip);
        assert_eq!(c.exchanged_bytes, 0);
        assert_eq!(c.network_protocol, IpVersion::Other);
        assert_eq!(c.transport_protocol, TransProtocol::Other);
        assert_eq!(c.application_protocol, AppProtocol::Other);
        assert_eq!(c.address1, "");
        assert_eq!(c.address2, "");
        assert_eq!(c.port1, 0);
        assert_eq!(c.port2, 0);
        assert!(analyze_headers(Some(headers), &strings(&["10.0.0.5"]), &Filters::none()).is_none());
    }
}

#[test]
fn contains_text_finds_whole_strings_only() {
    let list = strings(&["10.0.0.5", "fe80::1"]);
    assert!(contains_text(&list, &"10.0.0.5".to_string()));
    assert!(contains_text(&list, &"fe80::1".to_string()));
    assert!(!contains_text(&list, &"10.0.0.50".to_string()));
    assert!(!contains_text(&list, &"10.0.0".to_string()));
    assert!(!contains_text(&Vec::new(), &"10.0.0.5".to_string()));
}

#[test]
fn the_first_direction_rule_that_applies_decides() {
    let mine = strings(&["10.0.0.5", "224.0.0.9", "255.255.255.255"]);
    let direction = |a: &str, b: &str| traffic_direction(&a.to_string(), &b.to_string(), &mine);
    assert_eq!(direction("10.0.0.5", "203.0.113.9"), TrafficType::Outgoing);
    assert_eq!(direction("203.0.113.9", "10.0.0.5"), TrafficType::Incoming);
    assert_eq!(direction("10.0.0.5", "10.0.0.5"), TrafficType::Outgoing);
    assert_eq!(direction("10.0.0.5", "224.0.0.251"), TrafficType::Outgoing);
    assert_eq!(direction("10.0.0.7", "224.0.0.251"), TrafficType::Multicast);
    assert_eq!(direction("10.0.0.7", "224.0.0.9"), TrafficType::Incoming);
    assert_eq!(direction("10.0.0.7", "255.255.255.255"), TrafficType::Incoming);
    assert_eq!(direction("10.0.0.7", "8.8.8.8"), TrafficType::Other);
    let other = strings(&["192.168.1.2"]);
    assert_eq!(
        traffic_direction(&"10.0.0.7".to_string(), &"255.255.255.255".to_string(), &other),
        TrafficType::Broadcast
    );
    assert_eq!(
        traffic_direction(&"224.0.0.1".to_string(), &"10.0.0.9".to_string(), &other),
        TrafficType::Other
    );
}

#[test]
fn scenario_outgoing_tcp_packet() {
    let frame = tcp_v4_frame([10, 0, 0, 5], 443, [203, 0, 113, 9], 51000, &[0u8; 16]);
    let packet = analyze_frame(&frame, &strings(&["10.0.0.5"]), &Filters::none()).unwrap();
    assert_eq!(packet.traffic_type, TrafficType::Outgoing);
    assert_eq!(packet.key.address1, "10.0.0.5");
    assert_eq!(packet.key.port1, 443);
    assert_eq!(packet.key.address2, "203.0.113.9");
    assert_eq!(packet.key.port2, 51000);
    assert_eq!(packet.key.trans_protocol, TransProtocol::TCP);
    assert_eq!(packet.application_protocol, AppProtocol::HTTPS);
    assert_eq!(packet.exchanged_bytes, 36);
    assert!(packet.reported);
}

#[test]
fn a_frame_is_parsed_into_the_headers_it_was_built_from() {
    let mut source = [0u8; 16];
    source[0] = 0x20;
    source[1] = 0x01;
    source[15] = 0x10;
    let mut destination = [0u8; 16];
    destination[0] = 0xff;
    destination[1] = 0x02;
    destination[15] = 0xfb;
    let frame = udp_v6_frame(source, 5353, destination, 5353, &[1, 2, 3, 4]);
    let packet = analyze_frame(&frame, &strings(&["10.0.0.5"]), &Filters::none()).unwrap();
    assert_eq!(packet.key.address1, "2001::10");
    assert_eq!(packet.key.address2, "ff02::fb");
    assert_eq!(packet.key.port1, 5353);
    assert_eq!(packet.key.port2, 5353);
    assert_eq!(packet.key.trans_protocol, TransProtocol::UDP);
    assert_eq!(packet.application_protocol, AppProtocol::MDNS);
    assert_eq!(packet.traffic_type, TrafficType::Multicast);
    assert_eq!(packet.exchanged_bytes, 12);
}

#[test]
fn frames_that_cannot_be_parsed_give_no_packet() {
    let mine = strings(&["10.0.0.5"]);
    assert!(analyze_frame(&[], &mine, &Filters::none()).is_none());
    assert!(analyze_frame(&[1, 2, 3], &mine, &Filters::none()).is_none());
    let whole = tcp_v4_frame([10, 0, 0, 5], 443, [203, 0, 113, 9], 51000, &[0u8; 16]);
    assert!(analyze_frame(&whole[..30], &mine, &Filters::none()).is_none());
}

#[test]
fn frames_of_other_protocols_give_no_packet() {
    let mine = strings(&["10.0.0.5"]);
    let mut arp = vec![0xffu8; 6];
    arp.extend_from_slice(&[1, 2, 3, 4, 5, 6]);
    arp.extend_from_slice(&[0x08, 0x06]);
    arp.extend_from_slice(&[0u8; 28]);
    assert!(analyze_frame(&arp, &mine, &Filters::none()).is_none());
    let builder = etherparse::PacketBuilder::ethernet2([1, 2, 3, 4, 5, 6], [7, 8, 9, 10, 11, 12])
        .ipv4([10, 0, 0, 5], [8, 8, 8, 8], 64)
        .icmpv4_echo_request(1, 1);
    let mut ping = Vec::with_capacity(builder.size(4));
    builder.write(&mut ping, &[0u8; 4]).unwrap();
    assert!(analyze_frame(&ping, &mine, &Filters::none()).is_none());
}

#[test]
fn filters_decide_whether_a_packet_is_reported() {
    let frame = tcp_v4_frame([10, 0, 0, 5], 443, [203, 0, 113, 9], 51000, &[0u8; 16]);
    let mine = strings(&["10.0.0.5"]);
    let reported = |filters: Filters| analyze_frame(&frame, &mine, &filters).unwrap().reported;
    let open = Filters::none();
    assert_eq!(open.ip, IpVersion::Other);
    assert_eq!(open.transport, TransProtocol::Other);
    assert_eq!(open.application, AppProtocol::Other);
    assert!(reported(open));
    assert!(reported(Filters { ip: IpVersion::IPv4, ..open }));
    assert!(!reported(Filters { ip: IpVersion::IPv6, ..open }));
    assert!(reported(Filters { transport: TransProtocol::TCP, ..open }));
    assert!(!reported(Filters { transport: TransProtocol::UDP, ..open }));
    assert!(reported(Filters { application: AppProtocol::HTTPS, ..open }));
    assert!(!reported(Filters { application: AppProtocol::DNS, ..open }));
    assert!(reported(Filters {
        ip: IpVersion::IPv4,
        transport: TransProtocol::TCP,
        application: AppProtocol::HTTPS,
    }));
    assert!(!reported(Filters {
        ip: IpVersion::IPv4,
        transport: TransProtocol::TCP,
        application: AppProtocol::SSH,
    }));
    assert!(open.matches(IpVersion::IPv6, TransProtocol::UDP, AppProtocol::Other));
}

#[test]
fn the_parser_returns_on_truncated_and_damaged_frames() {
    let mine = strings(&["10.0.0.5"]);
    let mut source = [0u8; 16];
    source[0] = 0xfe;
    source[1] = 0x80;
    let whole = [
        tcp_v4_frame([10, 0, 0, 5], 443, [203, 0, 113, 9], 51000, &[7u8; 24]),
        udp_v6_frame(source, 53, [0xff; 16], 5353, &[7u8; 24]),
    ];
    let mut state: u64 = 0x2545_f491_4f6c_dd1d;
    let mut next = move || {
        state ^= state << 13;
        state ^= state >> 7;
        state ^= state << 17;
        state
    };
    let mut parsed = 0;
    for frame in whole.iter() {
        for end in 0..=frame.len() {
            if analyze_frame(&frame[..end], &mine, &Filters::none()).is_some() {
                parsed += 1;
            }
        }
        for _ in 0..20000 {
            let mut damaged = frame.clone();
            let changes = 1 + (next() % 4) as usize;
            for _ in 0..changes {
                let position = (next() % damaged.len() as u64) as usize;
                damaged[position] = (next() % 256) as u8;
            }
            let end = (next() % (damaged.len() as u64 + 1)) as usize;
            if let Some(packet) = analyze_frame(&damaged[..end], &mine, &Filters::none()) {
                assert!(packet.exchanged_bytes <= 65535);
                parsed += 1;
            }
        }
    }
    assert!(parsed > 0);
    for _ in 0..20000 {
        let length = (next() % 80) as usize;
        let mut noise: Vec<u8> = (0..length).map(|_| (next() % 256) as u8).collect();
        if length >= 14 {
            let ether_type: [u8; 2] = match next() % 4 {
                0 => [0x08, 0x00],
                1 => [0x86, 0xdd],
                2 => [0x81, 0x00],
                _ => [0x88, 0xa8],
            };
            noise[12] = ether_type[0];
            noise[13] = ether_type[1];
        }
        let _ = analyze_frame(&noise, &mine, &Filters::none());
    }
}
