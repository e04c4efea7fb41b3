//! The notification engine: on each tick it compares the running totals with
//! those of the previous tick, logs what passed a threshold and which
//! favorites transmitted, and asks for at most one sound.

use crate::address_port_pair::{AddressPortPair, AddressPortPairView};
use crate::clock::{local_now, time_of_day_text, Timestamp};
use crate::info_address_port_pair::{InfoAddressPortPair, InfoAddressPortPairView};
use crate::info_traffic::{Arrival, InfoTraffic, InfoTrafficView};
use std::collections::VecDeque;
use vstd::prelude::*;

verus! {

/// The most entries that the notification log holds.
pub const LOG_CAPACITY: usize = 30;

/// A sound to play with an alert.
#[derive(Clone, Copy, Debug, PartialEq, Eq, Structural)]
pub enum Sound {
    Gulp,
    Pop,
    Swhoosh,
}

/// The unit in which a bytes threshold is shown.
#[derive(Clone, Copy, Debug, PartialEq, Eq, Structural)]
pub enum ByteMultiple {
    B,
    KB,
    MB,
    GB,
}

/// Settings of the alert on the packets of one tick.
#[derive(Clone, Copy, Debug, PartialEq, Eq)]
pub struct PacketsNotification {
    /// The alert is raised when more packets than this came in one tick;
    /// `None` switches it off.
    pub threshold: Option<u32>,
    /// The sound to play with the alert, if any.
    pub sound: Option<Sound>,
    /// The threshold to show while the alert is switched off.
    pub previous_threshold: u32,
}

/// Settings of the alert on the bytes of one tick.
#[derive(Clone, Copy, Debug, PartialEq, Eq)]
pub struct BytesNotification {
    /// The alert is raised when more bytes than this came in one tick;
    /// `None` switches it off.
    pub threshold: Option<u64>,
    pub byte_multiple: ByteMultiple,
    /// The sound to play with the alert, if any.
    pub sound: Option<Sound>,
    /// The threshold to show while the alert is switched off.
    pub previous_threshold: u64,
}

/// Settings of the alert on favorite connections.
#[derive(Clone, Copy, Debug, PartialEq, Eq)]
pub struct FavoriteNotification {
    pub notify_on_favorite: bool,
    /// The sound to play with the alert, if any.
    pub sound: Option<Sound>,
}

/// The notification settings.
#[derive(Clone, Copy, Debug, PartialEq, Eq)]
pub struct Notifications {
    pub volume: u8,
    pub packets_notification: PacketsNotification,
    pub bytes_notification: BytesNotification,
    pub favorite_notification: FavoriteNotification,
}

/// A sound to play, and how loud.
#[derive(Clone, Copy, Debug, PartialEq, Eq, Structural)]
pub struct SoundRequest {
    pub sound: Sound,
    pub volume: u8,
}

/// More packets than the threshold came in one tick.
#[derive(Debug, PartialEq, Eq)]
pub struct PacketsThresholdExceeded {
    pub threshold: u32,
    pub incoming: u128,
    pub outgoing: u128,
    pub timestamp: String,
}

/// More bytes than the threshold came in one tick.
#[derive(Debug, PartialEq, Eq)]
pub struct BytesThresholdExceeded {
    pub threshold: u64,
    pub byte_multiple: ByteMultiple,
    pub incoming: u128,
    pub outgoing: u128,
    pub timestamp: String,
}

/// A favorite connection transmitted in the tick.
#[derive(Debug, PartialEq, Eq)]
pub struct FavoriteTransmitted {
    /// The connection and its record, as they were at the tick.
    pub connection: (AddressPortPair, InfoAddressPortPair),
    pub timestamp: String,
}

/// An entry of the notification log.
#[derive(Debug, PartialEq, Eq)]
pub enum LoggedNotification {
    PacketsThresholdExceeded(PacketsThresholdExceeded),
    BytesThresholdExceeded(BytesThresholdExceeded),
    FavoriteTransmitted(FavoriteTransmitted),
}

/// An entry of the notification log as a mathematical value.
#[allow(inconsistent_fields)]
pub enum LoggedNotificationView {
    PacketsThresholdExceeded { threshold: u32, incoming: nat, outgoing: nat, timestamp: Seq<char> },
    BytesThresholdExceeded {
        threshold: u64,
        byte_multiple: ByteMultiple,
        incoming: nat,
        outgoing: nat,
        timestamp: Seq<char>,
    },
    FavoriteTransmitted {
        connection: (AddressPortPairView, InfoAddressPortPairView),
        timestamp: Seq<char>,
    },
}

impl View for LoggedNotification {
    type V = LoggedNotificationView;

    open spec fn view(&self) -> LoggedNotificationView {
        match self {
            LoggedNotification::PacketsThresholdExceeded(e) => LoggedNotificationView::PacketsThresholdExceeded {
                threshold: e.threshold,
                incoming: e.incoming as nat,
                outgoing: e.outgoing as nat,
                timestamp: e.timestamp@,
            },
            LoggedNotification::BytesThresholdExceeded(e) => LoggedNotificationView::BytesThresholdExceeded {
                threshold: e.threshold,
                byte_multiple: e.byte_multiple,
                incoming: e.incoming as nat,
                outgoing: e.outgoing as nat,
                timestamp: e.timestamp@,
            },
            LoggedNotification::FavoriteTransmitted(e) => LoggedNotificationView::FavoriteTransmitted {
                connection: (e.connection.0@, e.connection.1@),
                timestamp: e.timestamp@,
            },
        }
    }
}

/// The log after one more entry: the entry comes first, and where the log
/// was full its oldest entry, the last, is gone.
pub open spec fn pushed(log: Seq<LoggedNotificationView>, entry: LoggedNotificationView) -> Seq<
    LoggedNotificationView,
> {
    if log.len() >= LOG_CAPACITY {
        seq![entry] + log.drop_last()
    } else {
        seq![entry] + log
    }
}

/// The log after the entries were added one by one, the first of them first.
pub open spec fn pushed_all(
    log: Seq<LoggedNotificationView>,
    entries: Seq<LoggedNotificationView>,
) -> Seq<LoggedNotificationView>
    decreases entries.len(),
{
    if entries.len() == 0 {
        log
    } else {
        pushed(pushed_all(log, entries.drop_last()), entries.last())
    }
}

/// The notification log: the newest entry first, and never more than
/// `LOG_CAPACITY` entries.
pub struct NotificationLog {
    entries: VecDeque<LoggedNotification>,
}

impl View for NotificationLog {
    type V = Seq<LoggedNotificationView>;

    closed spec fn view(&self) -> Seq<LoggedNotificationView> {
        Seq::new(self.entries@.len(), |i: int| self.entries@[i]@)
    }
}

impl NotificationLog {
    /// The invariant of the log: it holds no more entries than its capacity.
    pub open spec fn wf(&self) -> bool {
        self@.len() <= LOG_CAPACITY
    }

    /// Makes an empty log.
    pub fn new() -> (log: Self)
        ensures
            log.wf(),
            log@ == Seq::<LoggedNotificationView>::empty(),
    {
        let log = NotificationLog { entries: VecDeque::new() };
        assert(log@ =~= Seq::<LoggedNotificationView>::empty());
        log
    }

    /// Number of entries.
    pub fn len(&self) -> (n: usize)
        ensures
            n == self@.len(),
    {
        self.entries.len()
    }

    /// The entry at a position, the newest being at 0.
    pub fn get(&self, position: usize) -> (entry: Option<&LoggedNotification>)
        ensures
            position < self@.len() ==> (entry matches Some(e) && e@ == self@[position as int]),
            position >= self@.len() ==> entry is None,
    {
        if position < self.entries.len() {
            Some(&self.entries[position])
        } else {
            None
        }
    }

    /// Puts an entry in front. A full log loses its oldest entry first.
    pub fn push(&mut self, entry: LoggedNotification)
        requires
            old(self).wf(),
        ensures
            final(self).wf(),
            final(self)@ == pushed(old(self)@, entry@),
    {
        let ghost before = self@;
        if self.entries.len() >= LOG_CAPACITY {
            self.entries.pop_back();
        }
        self.entries.push_front(entry);
        assert(self@ =~= pushed(before, entry@));
    }
}

/// The totals of the previous tick and the notification log.
pub struct RunTimeData {
    pub tot_sent_packets_prev: u128,
    pub tot_received_packets_prev: u128,
    pub tot_sent_bytes_prev: u128,
    pub tot_received_bytes_prev: u128,
    pub logged_notifications: NotificationLog,
}

/// The runtime data as a mathematical value.
pub struct RunTimeDataView {
    pub tot_sent_packets_prev: nat,
    pub tot_received_packets_prev: nat,
    pub tot_sent_bytes_prev: nat,
    pub tot_received_bytes_prev: nat,
    pub logged_notifications: Seq<LoggedNotificationView>,
}

impl View for RunTimeData {
    type V = RunTimeDataView;

    open spec fn view(&self) -> RunTimeDataView {
        RunTimeDataView {
            tot_sent_packets_prev: self.tot_sent_packets_prev as nat,
            tot_received_packets_prev: self.tot_received_packets_prev as nat,
            tot_sent_bytes_prev: self.tot_sent_bytes_prev as nat,
            tot_received_bytes_prev: self.tot_received_bytes_prev as nat,
            logged_notifications: self.logged_notifications@,
        }
    }
}

impl RunTimeData {
    /// Makes the runtime data of a session that has not ticked yet.
    pub fn new() -> (data: Self)
        ensures
            data.logged_notifications.wf(),
            data@ == (RunTimeDataView {
                tot_sent_packets_prev: 0,
                tot_received_packets_prev: 0,
                tot_sent_bytes_prev: 0,
                tot_received_bytes_prev: 0,
                logged_notifications: Seq::empty(),
            }),
    {
        RunTimeData {
            tot_sent_packets_prev: 0,
            tot_received_packets_prev: 0,
            tot_sent_bytes_prev: 0,
            tot_received_bytes_prev: 0,
            logged_notifications: NotificationLog::new(),
        }
    }

    /// Takes the totals of the aggregator as those of the previous tick, for
    /// the next tick to compare with. The log stays as it is.
    pub fn remember_totals(&mut self, info_traffic: &InfoTraffic)
        ensures
            final(self).logged_notifications == old(self).logged_notifications,
            final(self)@ == (RunTimeDataView {
                tot_sent_packets_prev: info_traffic@.tot_sent_packets,
                tot_received_packets_prev: info_traffic@.tot_received_packets,
                tot_sent_bytes_prev: info_traffic@.tot_sent_bytes,
                tot_received_bytes_prev: info_traffic@.tot_received_bytes,
                logged_notifications: old(self)@.logged_notifications,
            }),
    {
        self.tot_sent_packets_prev = info_traffic.tot_sent_packets();
        self.tot_received_packets_prev = info_traffic.tot_received_packets();
        self.tot_sent_bytes_prev = info_traffic.tot_sent_bytes();
        self.tot_received_bytes_prev = info_traffic.tot_received_bytes();
    }
}

/// Packets that came since the previous tick, received and sent together.
pub open spec fn packets_delta(previous: RunTimeDataView, traffic: InfoTrafficView) -> int {
    (traffic.tot_received_packets - previous.tot_received_packets_prev) + (traffic.tot_sent_packets
        - previous.tot_sent_packets_prev)
}

/// Bytes that came since the previous tick, received and sent together.
pub open spec fn bytes_delta(previous: RunTimeDataView, traffic: InfoTrafficView) -> int {
    (traffic.tot_received_bytes - previous.tot_received_bytes_prev) + (traffic.tot_sent_bytes
        - previous.tot_sent_bytes_prev)
}

/// The packets alert is switched on and more packets than its threshold came
/// since the previous tick.
pub open spec fn packets_exceeded(
    settings: Notifications,
    previous: RunTimeDataView,
    traffic: InfoTrafficView,
) -> bool {
    settings.packets_notification.threshold matches Some(threshold) && packets_delta(
        previous,
        traffic,
    ) > threshold
}

/// The bytes alert is switched on and more bytes than its threshold came
/// since the previous tick.
pub open spec fn bytes_exceeded(
    settings: Notifications,
    previous: RunTimeDataView,
    traffic: InfoTrafficView,
) -> bool {
    settings.bytes_notification.threshold matches Some(threshold) && bytes_delta(previous, traffic)
        > threshold
}

/// The entry of a packets alert: the threshold that is set, and what came in
/// and went out since the previous tick.
pub open spec fn packets_alert(
    settings: Notifications,
    previous: RunTimeDataView,
    traffic: InfoTrafficView,
    timestamp: Seq<char>,
) -> LoggedNotificationView {
    LoggedNotificationView::PacketsThresholdExceeded {
        threshold: settings.packets_notification.threshold.unwrap(),
        incoming: (traffic.tot_received_packets - previous.tot_received_packets_prev) as nat,
        outgoing: (traffic.tot_sent_packets - previous.tot_sent_packets_prev) as nat,
        timestamp,
    }
}

/// The entry of a bytes alert: the threshold that is set with its unit, and
/// what came in and went out since the previous tick.
pub open spec fn bytes_alert(
    settings: Notifications,
    previous: RunTimeDataView,
    traffic: InfoTrafficView,
    timestamp: Seq<char>,
) -> LoggedNotificationView {
    LoggedNotificationView::BytesThresholdExceeded {
        threshold: settings.bytes_notification.threshold.unwrap(),
        byte_multiple: settings.bytes_notification.byte_multiple,
        incoming: (traffic.tot_received_bytes - previous.tot_received_bytes_prev) as nat,
        outgoing: (traffic.tot_sent_bytes - previous.tot_sent_bytes_prev) as nat,
        timestamp,
    }
}

/// The entries for the favorites that transmitted: one for each position in
/// `favorites`, in that order, with the connection found there.
pub open spec fn favorite_alerts(
    traffic: InfoTrafficView,
    favorites: Seq<usize>,
    timestamp: Seq<char>,
) -> Seq<LoggedNotificationView> {
    Seq::new(
        favorites.len(),
        |i: int|
            LoggedNotificationView::FavoriteTransmitted {
                connection: traffic.map[favorites[i] as int],
                timestamp,
            },
    )
}

/// The entries that one tick adds to the log, in the order in which they are
/// added: the packets alert, the bytes alert, then the favorites.
pub open spec fn tick_alerts(
    settings: Notifications,
    previous: RunTimeDataView,
    traffic: InfoTrafficView,
    favorites: Seq<usize>,
    timestamp: Seq<char>,
) -> Seq<LoggedNotificationView> {
    (if packets_exceeded(settings, previous, traffic) {
        seq![packets_alert(settings, previous, traffic, timestamp)]
    } else {
        Seq::empty()
    }) + (if bytes_exceeded(settings, previous, traffic) {
        seq![bytes_alert(settings, previous, traffic, timestamp)]
    } else {
        Seq::empty()
    }) + (if settings.favorite_notification.notify_on_favorite {
        favorite_alerts(traffic, favorites, timestamp)
    } else {
        Seq::empty()
    })
}

/// The one sound that a tick asks for: that of the first alert, in the order
/// packets, bytes, favorites, that was raised and has a sound set.
pub open spec fn tick_sound(
    settings: Notifications,
    previous: RunTimeDataView,
    traffic: InfoTrafficView,
    favorites: Seq<usize>,
) -> Option<SoundRequest> {
    if packets_exceeded(settings, previous, traffic) && settings.packets_notification.sound
        is Some {
        Some(
            SoundRequest {
                sound: settings.packets_notification.sound.unwrap(),
                volume: settings.volume,
            },
        )
    } else if bytes_exceeded(settings, previous, traffic) && settings.bytes_notification.sound
        is Some {
        Some(
            SoundRequest { sound: settings.bytes_notification.sound.unwrap(), volume: settings.volume },
        )
    } else if settings.favorite_notification.notify_on_favorite && favorites.len() > 0
        && settings.favorite_notification.sound is Some {
        Some(
            SoundRequest {
                sound: settings.favorite_notification.sound.unwrap(),
                volume: settings.volume,
            },
        )
    } else {
        None
    }
}

/// The sounds that the alerts of a tick come with, in the order in which the
/// alerts are raised: one for each alert that is raised and has a sound set.
pub open spec fn alert_sounds(
    settings: Notifications,
    previous: RunTimeDataView,
    traffic: InfoTrafficView,
    favorites: Seq<usize>,
) -> Seq<Sound> {
    (if packets_exceeded(settings, previous, traffic) && settings.packets_notification.sound
        is Some {
        seq![settings.packets_notification.sound.unwrap()]
    } else {
        Seq::empty()
    }) + (if bytes_exceeded(settings, previous, traffic) && settings.bytes_notification.sound
        is Some {
        seq![settings.bytes_notification.sound.unwrap()]
    } else {
        Seq::empty()
    }) + (if settings.favorite_notification.notify_on_favorite
        && settings.favorite_notification.sound is Some {
        Seq::new(favorites.len(), |i: int| settings.favorite_notification.sound.unwrap())
    } else {
        Seq::empty()
    })
}

/// A tick asks for one sound at most, however many alerts it raises: for
/// the first of the sounds that its alerts come with, at the volume that is
/// set, and for none where no alert comes with a sound.
pub proof fn lemma_one_sound_per_tick(
    settings: Notifications,
    previous: RunTimeDataView,
    traffic: InfoTrafficView,
    favorites: Seq<usize>,
)
    ensures
        ({
            let sounds = alert_sounds(settings, previous, traffic, favorites);
            let asked = tick_sound(settings, previous, traffic, favorites);
            &&& sounds.len() == 0 ==> asked is None
            &&& sounds.len() > 0 ==> asked == Some(
                SoundRequest { sound: sounds[0], volume: settings.volume },
            )
        }),
{
}

/// No total that an alert which is switched on compares has gone back since
/// the previous tick.
pub open spec fn totals_precede(
    settings: Notifications,
    previous: RunTimeDataView,
    traffic: InfoTrafficView,
) -> bool {
    &&& settings.packets_notification.threshold is Some ==> previous.tot_sent_packets_prev
        <= traffic.tot_sent_packets && previous.tot_received_packets_prev
        <= traffic.tot_received_packets
    &&& settings.bytes_notification.threshold is Some ==> previous.tot_sent_bytes_prev
        <= traffic.tot_sent_bytes && previous.tot_received_bytes_prev <= traffic.tot_received_bytes
}

/// `favorites` names each member of `set` once.
pub open spec fn enumerates(favorites: Seq<usize>, set: Set<usize>) -> bool {
    favorites.no_duplicates() && favorites.to_set() == set
}

/// Adding entries one by one: the last one added comes on top of the rest.
pub proof fn lemma_pushed_all_push(
    log: Seq<LoggedNotificationView>,
    entries: Seq<LoggedNotificationView>,
    entry: LoggedNotificationView,
)
    ensures
        pushed_all(log, entries.push(entry)) == pushed(pushed_all(log, entries), entry),
{
    assert(entries.push(entry).drop_last() =~= entries);
}

/// The log never holds more entries than its capacity. An entry that is
/// added comes first, those that were there follow in their order, and
/// where the log was full the oldest of them, the last, is gone.
pub proof fn lemma_log_bounded(log: Seq<LoggedNotificationView>, entry: LoggedNotificationView)
    requires
        log.len() <= LOG_CAPACITY,
    ensures
        pushed(log, entry).len() <= LOG_CAPACITY,
        pushed(log, entry)[0] == entry,
        log.len() < LOG_CAPACITY ==> pushed(log, entry) == seq![entry] + log,
        log.len() == LOG_CAPACITY ==> pushed(log, entry) == seq![entry] + log.subrange(
            0,
            LOG_CAPACITY - 1,
        ),
{
}

/// However many entries a tick adds, the log holds no more than its
/// capacity afterwards.
pub proof fn lemma_pushed_all_bounded(
    log: Seq<LoggedNotificationView>,
    entries: Seq<LoggedNotificationView>,
)
    requires
        log.len() <= LOG_CAPACITY,
    ensures
        pushed_all(log, entries).len() <= LOG_CAPACITY,
    decreases entries.len(),
{
    if entries.len() > 0 {
        lemma_pushed_all_bounded(log, entries.drop_last());
    }
}

/// Totals that were remembered at one tick can be compared at the next,
/// whatever packets came in between: no total goes back.
pub proof fn lemma_remembered_totals_precede(
    settings: Notifications,
    log: Seq<LoggedNotificationView>,
    traffic: InfoTrafficView,
    arrivals: Seq<Arrival>,
)
    ensures
        totals_precede(
            settings,
            RunTimeDataView {
                tot_sent_packets_prev: traffic.tot_sent_packets,
                tot_received_packets_prev: traffic.tot_received_packets,
                tot_sent_bytes_prev: traffic.tot_sent_bytes,
                tot_received_bytes_prev: traffic.tot_received_bytes,
                logged_notifications: log,
            },
            traffic.add_packets(arrivals),
        ),
{
    traffic.lemma_totals_never_decrease(arrivals);
}

/// Tells whether `log_notifications` can compare the totals: that none
/// which an alert that is switched on compares has gone back.
pub fn totals_comparable(
    runtime_data: &RunTimeData,
    notifications: Notifications,
    info_traffic: &InfoTraffic,
) -> (comparable: bool)
    ensures
        comparable == totals_precede(notifications, runtime_data@, info_traffic@),
{
    let packets = notifications.packets_notification.threshold.is_none() || (
    runtime_data.tot_sent_packets_prev <= info_traffic.tot_sent_packets()
        && runtime_data.tot_received_packets_prev <= info_traffic.tot_received_packets());
    let bytes = notifications.bytes_notification.threshold.is_none() || (
    runtime_data.tot_sent_bytes_prev <= info_traffic.tot_sent_bytes()
        && runtime_data.tot_received_bytes_prev <= info_traffic.tot_received_bytes());
    packets && bytes
}

/// Logs one entry for each favorite that transmitted: for each position in
/// `favorites`, in that order, a copy of the connection found there.
pub fn log_favorites(
    log: &mut NotificationLog,
    info_traffic: &InfoTraffic,
    favorites: &Vec<usize>,
    timestamp: &String,
)
    requires
        old(log).wf(),
        info_traffic.wf(),
        forall|j: int| 0 <= j < favorites@.len() ==> favorites@[j] < info_traffic@.map.len(),
    ensures
        final(log).wf(),
        final(log)@ == pushed_all(old(log)@, favorite_alerts(info_traffic@, favorites@, timestamp@)),
{
    let ghost start = log@;
    let ghost alerts = favorite_alerts(info_traffic@, favorites@, timestamp@);
    let mut i: usize = 0;
    assert(alerts.subrange(0, 0) =~= Seq::empty());
    while i < favorites.len()
        invariant
            i <= favorites@.len(),
            log.wf(),
            info_traffic.wf(),
            forall|j: int| 0 <= j < favorites@.len() ==> favorites@[j] < info_traffic@.map.len(),
            alerts == favorite_alerts(info_traffic@, favorites@, timestamp@),
            log@ == pushed_all(start, alerts.subrange(0, i as int)),
        decreases favorites@.len() - i,
    {
        let (key, record) = info_traffic.connection(favorites[i]);
        let entry = LoggedNotification::FavoriteTransmitted(
            FavoriteTransmitted {
                connection: (key.clone(), record.clone()),
                timestamp: timestamp.clone(),
            },
        );
        proof {
            assert(entry@ == alerts[i as int]);
            assert(alerts.subrange(0, i as int + 1) =~= alerts.subrange(0, i as int).push(
                alerts[i as int],
            ));
            lemma_pushed_all_push(start, alerts.subrange(0, i as int), alerts[i as int]);
        }
        log.push(entry);
        i = i + 1;
    }
    assert(alerts.subrange(0, favorites@.len() as int) =~= alerts);
}

/// Runs one tick of the notification engine with the clock read at `now`
/// and the touched favorites taken in the order of `favorites`. Each alert
/// that is raised is logged, and the sound of the first that has one is
/// returned for playing. Only the log is written.
pub fn log_notifications(
    runtime_data: &mut RunTimeData,
    notifications: Notifications,
    info_traffic: &InfoTraffic,
    favorites: &Vec<usize>,
    now: Timestamp,
) -> (sound: Option<SoundRequest>)
    requires
        old(runtime_data).logged_notifications.wf(),
        info_traffic.wf(),
        totals_precede(notifications, old(runtime_data)@, info_traffic@),
        forall|j: int| 0 <= j < favorites@.len() ==> favorites@[j] < info_traffic@.map.len(),
    ensures
        final(runtime_data).logged_notifications.wf(),
        final(runtime_data)@ == (RunTimeDataView {
            logged_notifications: pushed_all(
                old(runtime_data)@.logged_notifications,
                tick_alerts(
                    notifications,
                    old(runtime_data)@,
                    info_traffic@,
                    favorites@,
                    time_of_day_text(now),
                ),
            ),
            ..old(runtime_data)@
        }),
        sound == tick_sound(notifications, old(runtime_data)@, info_traffic@, favorites@),
{
    let ghost previous = runtime_data@;
    let ghost traffic = info_traffic@;
    let ghost start = runtime_data.logged_notifications@;
    let ghost mut done: Seq<LoggedNotificationView> = Seq::empty();
    proof {
        info_traffic.lemma_wf();
    }
    let timestamp = now.time_of_day();
    let mut sound: Option<SoundRequest> = None;
    if let Some(threshold) = notifications.packets_notification.threshold {
        let sent = info_traffic.tot_sent_packets() - runtime_data.tot_sent_packets_prev;
        let received = info_traffic.tot_received_packets() - runtime_data.tot_received_packets_prev;
        if received + sent > threshold as u128 {
            let entry = LoggedNotification::PacketsThresholdExceeded(
                PacketsThresholdExceeded {
                    threshold,
                    incoming: received,
                    outgoing: sent,
                    timestamp: timestamp.clone(),
                },
            );
            proof {
                lemma_pushed_all_push(start, done, entry@);
                done = done.push(entry@);
            }
            runtime_data.logged_notifications.push(entry);
            if let Some(chosen) = notifications.packets_notification.sound {
                sound = Some(SoundRequest { sound: chosen, volume: notifications.volume });
            }
        }
    }
    if let Some(threshold) = notifications.bytes_notification.threshold {
        let sent = info_traffic.tot_sent_bytes() - runtime_data.tot_sent_bytes_prev;
        let received = info_traffic.tot_received_bytes() - runtime_data.tot_received_bytes_prev;
        if received + sent > threshold as u128 {
            let entry = LoggedNotification::BytesThresholdExceeded(
                BytesThresholdExceeded {
                    threshold,
                    byte_multiple: notifications.bytes_notification.byte_multiple,
                    incoming: received,
                    outgoing: sent,
                    timestamp: timestamp.clone(),
                },
            );
            proof {
                lemma_pushed_all_push(start, done, entry@);
                done = done.push(entry@);
            }
            runtime_data.logged_notifications.push(entry);
            if let Some(chosen) = notifications.bytes_notification.sound {
                if sound.is_none() {
                    sound = Some(SoundRequest { sound: chosen, volume: notifications.volume });
                }
            }
        }
    }
    assert(runtime_data.logged_notifications@ == pushed_all(start, done));
    if notifications.favorite_notification.notify_on_favorite && favorites.len() > 0 {
        let ghost alerts = favorite_alerts(traffic, favorites@, timestamp@);
        log_favorites(&mut runtime_data.logged_notifications, info_traffic, favorites, &timestamp);
        proof {
            lemma_pushed_all_concat(start, done, alerts);
        }
        if let Some(chosen) = notifications.favorite_notification.sound {
            if sound.is_none() {
                sound = Some(SoundRequest { sound: chosen, volume: notifications.volume });
            }
        }
    }
    proof {
        let alerts = tick_alerts(notifications, previous, traffic, favorites@, timestamp@);
        if notifications.favorite_notification.notify_on_favorite && favorites@.len() > 0 {
            assert(alerts =~= done + favorite_alerts(traffic, favorites@, timestamp@));
        } else {
            assert(alerts =~= done);
        }
    }
    sound
}

/// Adding two runs of entries one after the other is adding them all.
pub proof fn lemma_pushed_all_concat(
    log: Seq<LoggedNotificationView>,
    first: Seq<LoggedNotificationView>,
    second: Seq<LoggedNotificationView>,
)
    ensures
        pushed_all(log, first + second) == pushed_all(pushed_all(log, first), second),
    decreases second.len(),
{
    if second.len() == 0 {
        assert(first + second =~= first);
    } else {
        lemma_pushed_all_concat(log, first, second.drop_last());
        assert((first + second).drop_last() =~= first + second.drop_last());
        assert((first + second).last() == second.last());
    }
}

/// Runs one tick of the notification engine: reads the clock, takes the
/// touched favorites from the aggregator in the order in which its set hands
/// them out, and does with both what `log_notifications` does.
pub fn notify_and_log(
    runtime_data: &mut RunTimeData,
    notifications: Notifications,
    info_traffic: &InfoTraffic,
) -> (sound: Option<SoundRequest>)
    requires
        old(runtime_data).logged_notifications.wf(),
        info_traffic.wf(),
        totals_precede(notifications, old(runtime_data)@, info_traffic@),
    ensures
        final(runtime_data).logged_notifications.wf(),
        exists|now: Timestamp, favorites: Seq<usize>|
            {
                &&& enumerates(favorites, info_traffic@.favorites_last_interval)
                &&& final(runtime_data)@ == (RunTimeDataView {
                    logged_notifications: pushed_all(
                        old(runtime_data)@.logged_notifications,
                        #[trigger] tick_alerts(
                            notifications,
                            old(runtime_data)@,
                            info_traffic@,
                            favorites,
                            time_of_day_text(now),
                        ),
                    ),
                    ..old(runtime_data)@
                })
                &&& sound == tick_sound(notifications, old(runtime_data)@, info_traffic@, favorites)
            },
{
    let now = local_now();
    let favorites = info_traffic.favorites_last_interval();
    let sound = log_notifications(runtime_data, notifications, info_traffic, &favorites, now);
    proof {
        let alerts = tick_alerts(
            notifications,
            old(runtime_data)@,
            info_traffic@,
            favorites@,
            time_of_day_text(now),
        );
        assert(enumerates(favorites@, info_traffic@.favorites_last_interval));
        assert(runtime_data@.logged_notifications == pushed_all(
            old(runtime_data)@.logged_notifications,
            alerts,
        ));
    }
    sound
}

} // verus!
