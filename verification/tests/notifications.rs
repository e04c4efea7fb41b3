use traffic_monitor::address_port_pair::AddressPortPair;
use traffic_monitor::clock::Timestamp;
use traffic_monitor::info_traffic::InfoTraffic;
use traffic_monitor::notifications::{
    log_favorites, log_notifications, notify_and_log, totals_comparable, ByteMultiple,
    BytesNotification, BytesThresholdExceeded, FavoriteNotification, FavoriteTransmitted,
    LoggedNotification, NotificationLog, Notifications, PacketsNotification,
    PacketsThresholdExceeded, RunTimeData, Sound, SoundRequest, LOG_CAPACITY,
};
use traffic_monitor::packet::PacketInfo;
use traffic_monitor::protocols::{AppProtocol, TrafficType, TransProtocol};

fn tick_time() -> Timestamp {
    Timestamp { year: 2024, month: 5, day: 17, hour: 7, minute: 5, second: 9, nanosecond: 123 }
}

fn silent() -> Notifications {
    Notifications {
        volume: 60,
        packets_notification: PacketsNotification { threshold: None, sound: None, previous_threshold: 750 },
        bytes_notification: BytesNotification {
            threshold: None,
            byte_multiple: ByteMultiple::KB,
            sound: None,
            previous_threshold: 800_000,
        },
        favorite_notification: FavoriteNotification { notify_on_favorite: false, sound: None },
    }
}

fn connection(n: u16) -> AddressPortPair {
    AddressPortPair::new("10.0.0.5".to_string(), 40000 + n, "203.0.113.9".to_string(), 443, TransProtocol::TCP)
}

fn traffic_packet(n: u16, bytes: u128, traffic_type: TrafficType) -> PacketInfo {
    PacketInfo {
        key: connection(n),
        exchanged_bytes: bytes,
        application_protocol: AppProtocol::HTTPS,
        traffic_type,
        reported: true,
    }
}

fn traffic_with(sent: u32, received: u32, bytes_each: u128) -> InfoTraffic {
    let mut info = InfoTraffic::new();
    for _ in 0..sent {
        info.add_packet(traffic_packet(0, bytes_each, TrafficType::Outgoing), tick_time(), String::new());
    }
    for _ in 0..received {
        info.add_packet(traffic_packet(1, bytes_each, TrafficType::Incoming), tick_time(), String::new());
    }
    info.clear_last_interval();
    info
}

fn previous(sent: u128, received: u128, sent_bytes: u128, received_bytes: u128) -> RunTimeData {
    let mut data = RunTimeData::new();
    data.tot_sent_packets_prev = sent;
    data.tot_received_packets_prev = received;
    data.tot_sent_bytes_prev = sent_bytes;
    data.tot_received_bytes_prev = received_bytes;
    data
}

fn marker(n: u32) -> LoggedNotification {
    LoggedNotification::PacketsThresholdExceeded(PacketsThresholdExceeded {
        threshold: n,
        incoming: 0,
        outgoing: 0,
        timestamp: String::new(),
    })
}

#[test]
fn the_time_of_day_has_two_digits_per_field() {
    assert_eq!(tick_time().time_of_day(), "07:05:09");
    let late = Timestamp { year: 1999, month: 12, day: 31, hour: 23, minute: 59, second: 59, nanosecond: 0 };
    assert_eq!(late.time_of_day(), "23:59:59");
    let midnight = Timestamp { year: 2000, month: 1, day: 1, hour: 0, minute: 0, second: 0, nanosecond: 0 };
    assert_eq!(midnight.time_of_day(), "00:00:00");
}

#[test]
fn scenario_packets_threshold_exceeded() {
    let info = traffic_with(120, 90, 10);
    let mut data = previous(50, 40, 0, 0);
    let mut settings = silent();
    settings.packets_notification.threshold = Some(100);
    assert!(totals_comparable(&data, settings, &info));
    let sound = log_notifications(&mut data, settings, &info, &Vec::new(), tick_time());
    assert_eq!(sound, None);
    assert_eq!(data.logged_notifications.len(), 1);
    assert_eq!(
        data.logged_notifications.get(0),
        Some(&LoggedNotification::PacketsThresholdExceeded(PacketsThresholdExceeded {
            threshold: 100,
            incoming: 50,
            outgoing: 70,
            timestamp: "07:05:09".to_string(),
        }))
    );
    assert_eq!(data.tot_sent_packets_prev, 50);
    assert_eq!(data.tot_received_packets_prev, 40);

    settings.packets_notification.sound = Some(Sound::Pop);
    let mut data = previous(50, 40, 0, 0);
    let sound = log_notifications(&mut data, settings, &info, &Vec::new(), tick_time());
    assert_eq!(sound, Some(SoundRequest { sound: Sound::Pop, volume: 60 }));
    assert_eq!(data.logged_notifications.len(), 1);
}

#[test]
fn a_threshold_has_to_be_passed_not_met() {
    let info = traffic_with(120, 90, 10);
    let mut settings = silent();
    settings.packets_notification.threshold = Some(120);
    settings.packets_notification.sound = Some(Sound::Gulp);
    let mut data = previous(50, 40, 0, 0);
    assert_eq!(log_notifications(&mut data, settings, &info, &Vec::new(), tick_time()), None);
    assert_eq!(data.logged_notifications.len(), 0);
    settings.packets_notification.threshold = Some(119);
    assert!(log_notifications(&mut data, settings, &info, &Vec::new(), tick_time()).is_some());
    assert_eq!(data.logged_notifications.len(), 1);
}

#[test]
fn bytes_threshold_exceeded() {
    let info = traffic_with(3, 2, 1000);
    let mut data = previous(0, 0, 1000, 500);
    let mut settings = silent();
    settings.bytes_notification.threshold = Some(3499);
    settings.bytes_notification.byte_multiple = ByteMultiple::MB;
    settings.bytes_notification.sound = Some(Sound::Swhoosh);
    let sound = log_notifications(&mut data, settings, &info, &Vec::new(), tick_time());
    assert_eq!(sound, Some(SoundRequest { sound: Sound::Swhoosh, volume: 60 }));
    assert_eq!(
        data.logged_notifications.get(0),
        Some(&LoggedNotification::BytesThresholdExceeded(BytesThresholdExceeded {
            threshold: 3499,
            byte_multiple: ByteMultiple::MB,
            incoming: 1500,
            outgoing: 2000,
            timestamp: "07:05:09".to_string(),
        }))
    );
    assert_eq!(data.logged_notifications.len(), 1);
    settings.bytes_notification.threshold = Some(3500);
    let mut data = previous(0, 0, 1000, 500);
    assert_eq!(log_notifications(&mut data, settings, &info, &Vec::new(), tick_time()), None);
    assert_eq!(data.logged_notifications.len(), 0);
}

#[test]
fn alerts_that_are_switched_off_log_nothing() {
    let mut info = traffic_with(120, 90, 10);
    info.set_favorite(0, true);
    info.add_packet(traffic_packet(0, 1, TrafficType::Outgoing), tick_time(), String::new());
    let mut data = previous(0, 0, 0, 0);
    let favorites = info.favorites_last_interval();
    assert_eq!(favorites, vec![0]);
    assert_eq!(log_notifications(&mut data, silent(), &info, &favorites, tick_time()), None);
    assert_eq!(data.logged_notifications.len(), 0);
    assert_eq!(notify_and_log(&mut data, silent(), &info), None);
    assert_eq!(data.logged_notifications.len(), 0);
}

#[test]
fn totals_that_went_back_cannot_be_compared() {
    let info = traffic_with(2, 2, 10);
    let mut settings = silent();
    assert!(totals_comparable(&previous(3, 0, 0, 0), settings, &info));
    settings.packets_notification.threshold = Some(1);
    assert!(totals_comparable(&previous(2, 2, 99, 99), settings, &info));
    assert!(!totals_comparable(&previous(3, 0, 0, 0), settings, &info));
    assert!(!totals_comparable(&previous(0, 3, 0, 0), settings, &info));
    settings.bytes_notification.threshold = Some(1);
    assert!(totals_comparable(&previous(2, 2, 20, 20), settings, &info));
    assert!(!totals_comparable(&previous(2, 2, 21, 20), settings, &info));
    assert!(!totals_comparable(&previous(2, 2, 20, 21), settings, &info));
}

#[test]
fn scenario_favorite_transmitted() {
    let mut info = InfoTraffic::new();
    for n in 0..10u16 {
        info.add_packet(traffic_packet(n, 100, TrafficType::Outgoing), tick_time(), format!("C{}", n));
    }
    info.set_favorite(7, true);
    info.clear_last_interval();
    info.add_packet(traffic_packet(7, 11, TrafficType::Outgoing), tick_time(), String::new());
    assert_eq!(info.favorites_last_interval(), vec![7]);

    let mut settings = silent();
    settings.favorite_notification.notify_on_favorite = true;
    settings.favorite_notification.sound = Some(Sound::Gulp);
    let mut data = RunTimeData::new();
    let sound = notify_and_log(&mut data, settings, &info);
    assert_eq!(sound, Some(SoundRequest { sound: Sound::Gulp, volume: 60 }));
    assert_eq!(data.logged_notifications.len(), 1);
    match data.logged_notifications.get(0).unwrap() {
        LoggedNotification::FavoriteTransmitted(FavoriteTransmitted { connection: (key, record), timestamp }) => {
            assert_eq!(*key, connection(7));
            assert_eq!(record.index, 7);
            assert_eq!(record.transmitted_bytes, 111);
            assert_eq!(record.transmitted_packets, 2);
            assert_eq!(record.country, "C7");
            assert!(record.is_favorite);
            let chars: Vec<char> = timestamp.chars().collect();
            assert_eq!(chars.len(), 8);
            for (position, c) in chars.iter().enumerate() {
                if position == 2 || position == 5 {
                    assert_eq!(*c, ':');
                } else {
                    assert!(c.is_ascii_digit());
                }
            }
        }
        other => panic!("unexpected entry {:?}", other),
    }
    assert_eq!(info.len(), 10);
    assert_eq!(info.favorites_last_interval(), vec![7]);
}

#[test]
fn each_favorite_that_transmitted_is_logged_in_the_given_order() {
    let mut info = InfoTraffic::new();
    for n in 0..5u16 {
        info.add_packet(traffic_packet(n, 100, TrafficType::Incoming), tick_time(), String::new());
    }
    let mut log = NotificationLog::new();
    log_favorites(&mut log, &info, &vec![3, 1, 4], &"12:00:00".to_string());
    assert_eq!(log.len(), 3);
    let positions: Vec<usize> = (0..3)
        .map(|i| match log.get(i).unwrap() {
            LoggedNotification::FavoriteTransmitted(entry) => {
                assert_eq!(entry.timestamp, "12:00:00");
                assert_eq!(entry.connection.0, connection(entry.connection.1.index as u16));
                entry.connection.1.index
            }
            other => panic!("unexpected entry {:?}", other),
        })
        .collect();
    assert_eq!(positions, vec![4, 1, 3]);
}

#[test]
fn at_most_one_sound_per_tick() {
    let mut info = traffic_with(120, 90, 10);
    info.set_favorite(0, true);
    info.set_favorite(1, true);
    info.add_packet(traffic_packet(0, 1, TrafficType::Outgoing), tick_time(), String::new());
    info.add_packet(traffic_packet(1, 1, TrafficType::Incoming), tick_time(), String::new());
    let mut settings = silent();
    settings.packets_notification.threshold = Some(1);
    settings.packets_notification.sound = Some(Sound::Pop);
    settings.bytes_notification.threshold = Some(1);
    settings.bytes_notification.sound = Some(Sound::Swhoosh);
    settings.favorite_notification.notify_on_favorite = true;
    settings.favorite_notification.sound = Some(Sound::Gulp);

    let mut data = RunTimeData::new();
    let sound = notify_and_log(&mut data, settings, &info);
    assert_eq!(sound, Some(SoundRequest { sound: Sound::Pop, volume: 60 }));
    assert_eq!(data.logged_notifications.len(), 4);
    assert!(matches!(data.logged_notifications.get(3), Some(LoggedNotification::PacketsThresholdExceeded(_))));
    assert!(matches!(data.logged_notifications.get(2), Some(LoggedNotification::BytesThresholdExceeded(_))));
    assert!(matches!(data.logged_notifications.get(1), Some(LoggedNotification::FavoriteTransmitted(_))));
    assert!(matches!(data.logged_notifications.get(0), Some(LoggedNotification::FavoriteTransmitted(_))));

    settings.packets_notification.sound = None;
    let mut data = RunTimeData::new();
    assert_eq!(
        notify_and_log(&mut data, settings, &info),
        Some(SoundRequest { sound: Sound::Swhoosh, volume: 60 })
    );
    settings.bytes_notification.sound = None;
    let mut data = RunTimeData::new();
    assert_eq!(
        notify_and_log(&mut data, settings, &info),
        Some(SoundRequest { sound: Sound::Gulp, volume: 60 })
    );
    settings.favorite_notification.sound = None;
    let mut data = RunTimeData::new();
    assert_eq!(notify_and_log(&mut data, settings, &info), None);
    assert_eq!(data.logged_notifications.len(), 4);

    settings.packets_notification.sound = Some(Sound::Pop);
    settings.packets_notification.threshold = Some(u32::MAX);
    settings.bytes_notification.sound = Some(Sound::Swhoosh);
    let mut data = RunTimeData::new();
    assert_eq!(
        notify_and_log(&mut data, settings, &info),
        Some(SoundRequest { sound: Sound::Swhoosh, volume: 60 })
    );
    assert_eq!(data.logged_notifications.len(), 3);
}

#[test]
fn favorites_without_transmission_raise_nothing() {
    let mut info = traffic_with(2, 2, 10);
    info.set_favorite(0, true);
    let mut settings = silent();
    settings.favorite_notification.notify_on_favorite = true;
    settings.favorite_notification.sound = Some(Sound::Gulp);
    let mut data = RunTimeData::new();
    assert_eq!(notify_and_log(&mut data, settings, &info), None);
    assert_eq!(data.logged_notifications.len(), 0);
}

#[test]
fn the_log_holds_thirty_entries_at_most() {
    assert_eq!(LOG_CAPACITY, 30);
    let mut log = NotificationLog::new();
    assert_eq!(log.len(), 0);
    assert!(log.get(0).is_none());
    for n in 0..30u32 {
        log.push(marker(n));
        assert_eq!(log.len(), n as usize + 1);
    }
    assert_eq!(log.get(0), Some(&marker(29)));
    assert_eq!(log.get(29), Some(&marker(0)));
    log.push(marker(30));
    assert_eq!(log.len(), 30);
    assert_eq!(log.get(0), Some(&marker(30)));
    assert_eq!(log.get(1), Some(&marker(29)));
    assert_eq!(log.get(29), Some(&marker(1)));
    assert!(log.get(30).is_none());
    for n in 31..100u32 {
        log.push(marker(n));
        assert_eq!(log.len(), 30);
    }
    for position in 0..30u32 {
        assert_eq!(log.get(position as usize), Some(&marker(99 - position)));
    }
}

#[test]
fn a_tick_with_many_favorites_keeps_the_log_bounded() {
    let mut info = InfoTraffic::new();
    for n in 0..40u16 {
        info.add_packet(traffic_packet(n, 100, TrafficType::Outgoing), tick_time(), String::new());
        info.set_favorite(n as usize, true);
    }
    for n in 0..40u16 {
        info.add_packet(traffic_packet(n, 100, TrafficType::Outgoing), tick_time(), String::new());
    }
    let mut settings = silent();
    settings.favorite_notification.notify_on_favorite = true;
    settings.packets_notification.threshold = Some(0);
    let mut data = RunTimeData::new();
    let order: Vec<usize> = (0..40).collect();
    log_notifications(&mut data, settings, &info, &order, tick_time());
    assert_eq!(data.logged_notifications.len(), 30);
    for position in 0..30usize {
        match data.logged_notifications.get(position).unwrap() {
            LoggedNotification::FavoriteTransmitted(entry) => {
                assert_eq!(entry.connection.1.index, 39 - position);
            }
            other => panic!("unexpected entry {:?}", other),
        }
    }
    let mut data = RunTimeData::new();
    notify_and_log(&mut data, settings, &info);
    assert_eq!(data.logged_notifications.len(), 30);
}

#[test]
fn remembered_totals_are_those_of_the_aggregator() {
    let mut info = traffic_with(3, 2, 100);
    let mut data = RunTimeData::new();
    data.logged_notifications.push(marker(1));
    data.remember_totals(&info);
    assert_eq!(data.tot_sent_packets_prev, 3);
    assert_eq!(data.tot_received_packets_prev, 2);
    assert_eq!(data.tot_sent_bytes_prev, 300);
    assert_eq!(data.tot_received_bytes_prev, 200);
    assert_eq!(data.logged_notifications.len(), 1);

    let mut settings = silent();
    settings.packets_notification.threshold = Some(0);
    settings.bytes_notification.threshold = Some(0);
    assert!(totals_comparable(&data, settings, &info));
    assert_eq!(notify_and_log(&mut data, settings, &info), None);
    assert_eq!(data.logged_notifications.len(), 1);

    info.add_packet(traffic_packet(0, 40, TrafficType::Outgoing), tick_time(), String::new());
    assert!(totals_comparable(&data, settings, &info));
    notify_and_log(&mut data, settings, &info);
    assert_eq!(data.logged_notifications.len(), 3);
    match data.logged_notifications.get(0).unwrap() {
        LoggedNotification::BytesThresholdExceeded(entry) => {
            assert_eq!((entry.threshold, entry.incoming, entry.outgoing), (0, 0, 40));
            assert_eq!(entry.byte_multiple, ByteMultiple::KB);
        }
        other => panic!("unexpected entry {:?}", other),
    }
    match data.logged_notifications.get(1).unwrap() {
        LoggedNotification::PacketsThresholdExceeded(entry) => {
            assert_eq!((entry.threshold, entry.incoming, entry.outgoing), (0, 0, 1));
        }
        other => panic!("unexpected entry {:?}", other),
    }
}
