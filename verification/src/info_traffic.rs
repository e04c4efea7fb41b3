//! The traffic aggregator: every connection seen in a capture session, in
//! the order of first appearance, with running totals.

use crate::address_port_pair::{AddressPortPair, AddressPortPairView};
use crate::clock::Timestamp;
use crate::countries::{address_to_lookup, remote_address};
use crate::info_address_port_pair::{InfoAddressPortPair, InfoAddressPortPairView};
use crate::packet::{PacketInfo, PacketView};
use crate::protocols::{AppProtocol, TrafficType, APP_PROTOCOL_COUNT};
use std::collections::HashSet;
use vstd::prelude::*;
use vstd::std_specs::hash::spec_hash_keys_iter;
use vstd::std_specs::iter::IteratorSpec;
use vstd::string::*;

verus! {

broadcast use vstd::std_specs::hash::group_hash_axioms;

/// The aggregator as a mathematical value.
pub struct InfoTrafficView {
    /// Bytes of every packet counted, filtered out or not.
    pub all_bytes: nat,
    /// Packets counted, filtered out or not.
    pub all_packets: nat,
    /// Bytes of the reported packets that were not outgoing.
    pub tot_received_bytes: nat,
    /// Reported packets that were not outgoing.
    pub tot_received_packets: nat,
    /// Bytes of the reported outgoing packets.
    pub tot_sent_bytes: nat,
    /// Reported outgoing packets.
    pub tot_sent_packets: nat,
    /// The connections with their records, in the order of first appearance.
    pub map: Seq<(AddressPortPairView, InfoAddressPortPairView)>,
    /// Reported packets per application protocol.
    pub app_protocols: Map<AppProtocol, nat>,
    /// Positions of the connections touched since the last reset.
    pub addresses_last_interval: Set<usize>,
    /// Positions of the favorite connections touched since the last reset.
    pub favorites_last_interval: Set<usize>,
}

impl InfoTrafficView {
    /// The aggregator of a session that has counted nothing.
    pub open spec fn empty() -> InfoTrafficView {
        InfoTrafficView {
            all_bytes: 0,
            all_packets: 0,
            tot_received_bytes: 0,
            tot_received_packets: 0,
            tot_sent_bytes: 0,
            tot_sent_packets: 0,
            map: Seq::empty(),
            app_protocols: Map::total(|p: AppProtocol| 0nat),
            addresses_last_interval: Set::empty(),
            favorites_last_interval: Set::empty(),
        }
    }

    /// `key` is at position `i`.
    pub open spec fn key_at(self, key: AddressPortPairView, i: int) -> bool {
        0 <= i < self.map.len() && self.map[i].0 == key
    }

    /// `key` has a record.
    pub open spec fn contains_key(self, key: AddressPortPairView) -> bool {
        exists|i: int| self.key_at(key, i)
    }

    /// The position of `key`, which is also the index of its record.
    pub open spec fn index_of(self, key: AddressPortPairView) -> Option<int> {
        if self.contains_key(key) {
            Some(choose|i: int| self.key_at(key, i))
        } else {
            None
        }
    }

    /// Every record stands at the position that its index names, and no key
    /// stands at two positions.
    pub open spec fn indices_stable(self) -> bool {
        &&& forall|i: int| 0 <= i < self.map.len() ==> (#[trigger] self.map[i]).1.index == i
        &&& forall|i: int, j: int|
            0 <= i < j < self.map.len() ==> (#[trigger] self.map[i]).0 != (#[trigger] self.map[j]).0
    }

    /// No part counts more than the whole.
    pub open spec fn counters_consistent(self) -> bool {
        &&& self.tot_sent_packets + self.tot_received_packets <= self.all_packets
        &&& self.tot_sent_bytes + self.tot_received_bytes <= self.all_bytes
        &&& forall|i: int|
            0 <= i < self.map.len() ==> (#[trigger] self.map[i]).1.transmitted_packets
                <= self.all_packets
        &&& forall|i: int|
            0 <= i < self.map.len() ==> (#[trigger] self.map[i]).1.transmitted_bytes
                <= self.all_bytes
        &&& forall|p: AppProtocol| #[trigger] self.app_protocols[p] <= self.all_packets
    }

    /// The invariant of the aggregator.
    pub open spec fn wf(self) -> bool {
        &&& self.indices_stable()
        &&& self.counters_consistent()
        &&& forall|p: AppProtocol| self.app_protocols.dom().contains(p)
        &&& forall|i: usize| #[trigger] self.addresses_last_interval.contains(i) ==> i < self.map.len()
        &&& forall|i: usize| #[trigger] self.favorites_last_interval.contains(i) ==> i < self.map.len()
    }

    /// The record of a connection after one more of its packets.
    pub open spec fn updated_record(
        record: InfoAddressPortPairView,
        packet: PacketView,
        now: Timestamp,
    ) -> InfoAddressPortPairView {
        InfoAddressPortPairView {
            transmitted_bytes: record.transmitted_bytes + packet.exchanged_bytes,
            transmitted_packets: record.transmitted_packets + 1,
            final_timestamp: now,
            ..record
        }
    }

    /// The record of a connection whose first packet has just come.
    pub open spec fn first_record(
        packet: PacketView,
        now: Timestamp,
        country: Seq<char>,
        index: nat,
    ) -> InfoAddressPortPairView {
        InfoAddressPortPairView {
            transmitted_bytes: packet.exchanged_bytes,
            transmitted_packets: 1,
            initial_timestamp: now,
            final_timestamp: now,
            app_protocol: packet.application_protocol,
            very_long_address: packet.key.very_long_address(),
            traffic_type: packet.traffic_type,
            country,
            index,
            is_favorite: false,
        }
    }

    /// The aggregator after a reported packet was entered for its connection.
    /// A known connection has its record updated in place and is marked as
    /// touched, among the favorites too if it is one; a new connection gets
    /// the next position, and `country` as its country code.
    pub open spec fn report(self, packet: PacketView, now: Timestamp, country: Seq<char>) -> InfoTrafficView {
        match self.index_of(packet.key) {
            Some(i) => {
                let record = self.map[i].1;
                InfoTrafficView {
                    map: self.map.update(i, (packet.key, Self::updated_record(record, packet, now))),
                    addresses_last_interval: self.addresses_last_interval.insert(i as usize),
                    favorites_last_interval: if record.is_favorite {
                        self.favorites_last_interval.insert(i as usize)
                    } else {
                        self.favorites_last_interval
                    },
                    ..self
                }
            },
            None => {
                let i = self.map.len();
                InfoTrafficView {
                    map: self.map.push((packet.key, Self::first_record(packet, now, country, i))),
                    addresses_last_interval: self.addresses_last_interval.insert(i as usize),
                    ..self
                }
            },
        }
    }

    /// The aggregator after a packet was added to the totals. Every packet
    /// counts for the global totals; a reported one also for its application
    /// protocol and for its direction: sent if outgoing, received otherwise.
    pub open spec fn count(self, packet: PacketView) -> InfoTrafficView {
        let sent = packet.reported && packet.traffic_type == TrafficType::Outgoing;
        let received = packet.reported && packet.traffic_type != TrafficType::Outgoing;
        InfoTrafficView {
            all_packets: self.all_packets + 1,
            all_bytes: self.all_bytes + packet.exchanged_bytes,
            app_protocols: if packet.reported {
                self.app_protocols.insert(
                    packet.application_protocol,
                    self.app_protocols[packet.application_protocol] + 1,
                )
            } else {
                self.app_protocols
            },
            tot_sent_packets: if sent {
                self.tot_sent_packets + 1
            } else {
                self.tot_sent_packets
            },
            tot_sent_bytes: if sent {
                self.tot_sent_bytes + packet.exchanged_bytes
            } else {
                self.tot_sent_bytes
            },
            tot_received_packets: if received {
                self.tot_received_packets + 1
            } else {
                self.tot_received_packets
            },
            tot_received_bytes: if received {
                self.tot_received_bytes + packet.exchanged_bytes
            } else {
                self.tot_received_bytes
            },
            ..self
        }
    }

    /// The aggregator after one packet: entered for its connection if it is
    /// reported, then added to the totals.
    pub open spec fn add_packet(self, packet: PacketView, now: Timestamp, country: Seq<char>) -> InfoTrafficView {
        if packet.reported {
            self.report(packet, now, country).count(packet)
        } else {
            self.count(packet)
        }
    }

    /// The address to resolve before `packet` is added: that of the remote
    /// endpoint, if the packet is reported and opens a connection; `None`
    /// for every other packet.
    pub open spec fn country_request(self, packet: PacketView) -> Option<Seq<char>> {
        if packet.reported && !self.contains_key(packet.key) {
            Some(remote_address(packet.traffic_type, packet.key))
        } else {
            None
        }
    }

    /// The aggregator after the connection at `index` was marked, or
    /// unmarked, as a favorite. An index that names no connection changes
    /// nothing.
    pub open spec fn set_favorite(self, index: int, is_favorite: bool) -> InfoTrafficView {
        if 0 <= index < self.map.len() {
            let (key, record) = self.map[index];
            InfoTrafficView {
                map: self.map.update(index, (key, InfoAddressPortPairView { is_favorite, ..record })),
                ..self
            }
        } else {
            self
        }
    }

    /// The aggregator after the interval sets were reset.
    pub open spec fn clear_last_interval(self) -> InfoTrafficView {
        InfoTrafficView {
            addresses_last_interval: Set::empty(),
            favorites_last_interval: Set::empty(),
            ..self
        }
    }
}

impl InfoTrafficView {
    /// A key that has a record stands at the position that `index_of` gives,
    /// and at no other.
    pub proof fn lemma_index_of(self, key: AddressPortPairView)
        requires
            self.indices_stable(),
        ensures
            self.index_of(key) matches Some(i) ==> self.key_at(key, i),
            forall|j: int| self.key_at(key, j) ==> self.index_of(key) == Some(j),
    {
        if self.contains_key(key) {
            let i = choose|i: int| self.key_at(key, i);
            assert(self.key_at(key, i));
            assert forall|j: int| self.key_at(key, j) implies self.index_of(key) == Some(j) by {
                if j < i {
                    assert(self.map[j].0 != self.map[i].0);
                } else if i < j {
                    assert(self.map[i].0 != self.map[j].0);
                }
            }
        }
    }

    /// Adding a packet keeps the invariant.
    pub proof fn lemma_add_packet_wf(self, packet: PacketView, now: Timestamp, country: Seq<char>)
        requires
            self.wf(),
            self.map.len() <= usize::MAX,
        ensures
            self.add_packet(packet, now, country).wf(),
    {
        self.lemma_index_of(packet.key);
        self.lemma_add_packet_indices_stable(packet, now, country);
        let after = self.add_packet(packet, now, country);
        assert forall|a: int| 0 <= a < after.map.len() implies (
        #[trigger] after.map[a]).1.transmitted_packets <= after.all_packets by {
            if a < self.map.len() {
                assert(self.map[a].1.transmitted_packets <= self.all_packets);
            }
        }
        assert forall|a: int| 0 <= a < after.map.len() implies (
        #[trigger] after.map[a]).1.transmitted_bytes <= after.all_bytes by {
            if a < self.map.len() {
                assert(self.map[a].1.transmitted_bytes <= self.all_bytes);
            }
        }
        assert forall|p: AppProtocol| #[trigger] after.app_protocols[p] <= after.all_packets by {
            assert(self.app_protocols[p] <= self.all_packets);
        }
    }

    /// Marking a favorite keeps the invariant.
    pub proof fn lemma_set_favorite_wf(self, index: int, is_favorite: bool)
        requires
            self.wf(),
        ensures
            self.set_favorite(index, is_favorite).wf(),
    {
        let after = self.set_favorite(index, is_favorite);
        if 0 <= index < self.map.len() {
            assert forall|a: int, b: int| 0 <= a < b < after.map.len() implies (
            #[trigger] after.map[a]).0 != (#[trigger] after.map[b]).0 by {
                assert(after.map[a].0 == self.map[a].0);
                assert(after.map[b].0 == self.map[b].0);
            }
            assert forall|a: int| 0 <= a < after.map.len() implies (
            #[trigger] after.map[a]).1.transmitted_packets <= after.all_packets by {
                assert(self.map[a].1.transmitted_packets <= self.all_packets);
            }
            assert forall|a: int| 0 <= a < after.map.len() implies (
            #[trigger] after.map[a]).1.transmitted_bytes <= after.all_bytes by {
                assert(self.map[a].1.transmitted_bytes <= self.all_bytes);
            }
            assert forall|a: int| 0 <= a < after.map.len() implies (
            #[trigger] after.map[a]).1.index == a by {
                assert(self.map[a].1.index == a);
            }
        }
    }
}

/// One packet as it reaches the aggregator: with the reading of the clock
/// and the country code that were handed in with it.
pub struct Arrival {
    pub packet: PacketView,
    pub now: Timestamp,
    pub country: Seq<char>,
}

impl InfoTrafficView {
    /// The aggregator after a run of packets, the first of them first.
    pub open spec fn add_packets(self, arrivals: Seq<Arrival>) -> InfoTrafficView
        decreases arrivals.len(),
    {
        if arrivals.len() == 0 {
            self
        } else {
            let last = arrivals.last();
            self.add_packets(arrivals.drop_last()).add_packet(last.packet, last.now, last.country)
        }
    }

    /// Every packet that is added counts for the global totals: one packet,
    /// and the bytes it carries, whether the filters let it pass or not.
    pub proof fn lemma_every_packet_counts(self, packet: PacketView, now: Timestamp, country: Seq<char>)
        ensures
            self.add_packet(packet, now, country).all_packets == self.all_packets + 1,
            self.add_packet(packet, now, country).all_bytes == self.all_bytes
                + packet.exchanged_bytes,
    {
    }

    /// A reported packet counts for exactly one direction, the one it has:
    /// an outgoing packet as sent, any other as received, and the other
    /// direction stays as it was. A packet that is not reported counts for
    /// neither.
    pub proof fn lemma_one_direction_counts(self, packet: PacketView, now: Timestamp, country: Seq<char>)
        ensures
            ({
                let after = self.add_packet(packet, now, country);
                let sent = if packet.reported && packet.traffic_type == TrafficType::Outgoing {
                    1nat
                } else {
                    0nat
                };
                let received = if packet.reported && packet.traffic_type != TrafficType::Outgoing {
                    1nat
                } else {
                    0nat
                };
                &&& packet.reported ==> sent + received == 1
                &&& !packet.reported ==> sent + received == 0
                &&& after.tot_sent_packets == self.tot_sent_packets + sent
                &&& after.tot_sent_bytes == self.tot_sent_bytes + sent * packet.exchanged_bytes
                &&& after.tot_received_packets == self.tot_received_packets + received
                &&& after.tot_received_bytes == self.tot_received_bytes + received
                    * packet.exchanged_bytes
            }),
    {
    }

    /// Adding a packet keeps every record at the position that its index
    /// names, and every key at one position only.
    pub proof fn lemma_add_packet_indices_stable(
        self,
        packet: PacketView,
        now: Timestamp,
        country: Seq<char>,
    )
        requires
            self.indices_stable(),
        ensures
            self.add_packet(packet, now, country).indices_stable(),
            self.add_packet(packet, now, country).map.len() >= self.map.len(),
    {
        self.lemma_index_of(packet.key);
        let after = self.add_packet(packet, now, country);
        if packet.reported {
            match self.index_of(packet.key) {
                Some(i) => {
                    assert forall|a: int, b: int| 0 <= a < b < after.map.len() implies (
                    #[trigger] after.map[a]).0 != (#[trigger] after.map[b]).0 by {
                        assert(after.map[a].0 == self.map[a].0);
                        assert(after.map[b].0 == self.map[b].0);
                    }
                    assert forall|a: int| 0 <= a < after.map.len() implies (
                    #[trigger] after.map[a]).1.index == a by {
                        assert(self.map[a].1.index == a);
                    }
                },
                None => {
                    assert forall|a: int, b: int| 0 <= a < b < after.map.len() implies (
                    #[trigger] after.map[a]).0 != (#[trigger] after.map[b]).0 by {
                        if b < self.map.len() {
                            assert(self.map[a].0 != self.map[b].0);
                        } else {
                            assert(!self.key_at(packet.key, a));
                        }
                    }
                    assert forall|a: int| 0 <= a < after.map.len() implies (
                    #[trigger] after.map[a]).1.index == a by {
                        if a < self.map.len() {
                            assert(self.map[a].1.index == a);
                        }
                    }
                },
            }
        }
    }

    /// The index of a connection is fixed when its first packet is entered,
    /// as the number of connections that came before it, and no later
    /// packet changes it: a key keeps its position, and the record there
    /// keeps its index and its country code, while its counts never go
    /// down.
    pub proof fn lemma_index_assigned_once(
        self,
        key: AddressPortPairView,
        packet: PacketView,
        now: Timestamp,
        country: Seq<char>,
    )
        requires
            self.indices_stable(),
        ensures
            ({
                let after = self.add_packet(packet, now, country);
                &&& self.index_of(key) matches Some(i) ==> {
                    &&& after.index_of(key) == Some(i)
                    &&& after.map[i].1.index == self.map[i].1.index
                    &&& after.map[i].1.index == i
                    &&& after.map[i].1.country == self.map[i].1.country
                    &&& after.map[i].1.transmitted_packets >= self.map[i].1.transmitted_packets
                    &&& after.map[i].1.transmitted_bytes >= self.map[i].1.transmitted_bytes
                }
                &&& self.index_of(key) is None && packet.reported && packet.key == key ==> {
                    &&& after.index_of(key) == Some(self.map.len() as int)
                    &&& after.map[self.map.len() as int].1.index == self.map.len()
                    &&& after.map[self.map.len() as int].1.country == country
                }
            }),
    {
        let after = self.add_packet(packet, now, country);
        self.lemma_index_of(key);
        self.lemma_index_of(packet.key);
        self.lemma_add_packet_indices_stable(packet, now, country);
        after.lemma_index_of(key);
        match self.index_of(key) {
            Some(i) => {
                assert(after.key_at(key, i));
            },
            None => {
                if packet.reported && packet.key == key {
                    assert(after.key_at(key, self.map.len() as int));
                }
            },
        }
    }

    /// No run of packets changes the index of a connection that has one.
    pub proof fn lemma_index_never_changes(self, key: AddressPortPairView, arrivals: Seq<Arrival>)
        requires
            self.indices_stable(),
            self.contains_key(key),
        ensures
            self.add_packets(arrivals).indices_stable(),
            self.add_packets(arrivals).index_of(key) == self.index_of(key),
            ({
                let i = self.index_of(key)->0;
                &&& self.add_packets(arrivals).map[i].1.index == self.map[i].1.index
                &&& self.add_packets(arrivals).map[i].1.country == self.map[i].1.country
            }),
        decreases arrivals.len(),
    {
        if arrivals.len() > 0 {
            let last = arrivals.last();
            let before = self.add_packets(arrivals.drop_last());
            self.lemma_index_never_changes(key, arrivals.drop_last());
            before.lemma_index_assigned_once(key, last.packet, last.now, last.country);
            before.lemma_add_packet_indices_stable(last.packet, last.now, last.country);
        }
    }

    /// A country is asked for at most once for each connection: of two
    /// packets of one connection in a run of packets, the later one asks
    /// for none if the earlier one did.
    pub proof fn lemma_country_asked_once(self, arrivals: Seq<Arrival>, i: int, j: int)
        requires
            self.indices_stable(),
            0 <= i < j < arrivals.len(),
            arrivals[i].packet.key == arrivals[j].packet.key,
            self.add_packets(arrivals.take(i)).country_request(arrivals[i].packet) is Some,
        ensures
            self.add_packets(arrivals.take(j)).country_request(arrivals[j].packet) is None,
    {
        let key = arrivals[i].packet.key;
        let first = arrivals[i];
        let before = self.add_packets(arrivals.take(i));
        let entered = self.add_packets(arrivals.take(i + 1));
        assert(arrivals.take(i + 1).drop_last() =~= arrivals.take(i));
        assert(arrivals.take(i + 1).last() == first);
        self.lemma_add_packets_indices_stable(arrivals.take(i));
        before.lemma_index_assigned_once(key, first.packet, first.now, first.country);
        before.lemma_add_packet_indices_stable(first.packet, first.now, first.country);
        assert(entered.contains_key(key));
        let rest = arrivals.subrange(i + 1, j);
        self.lemma_add_packets_concat(arrivals.take(i + 1), rest);
        assert(arrivals.take(i + 1) + rest =~= arrivals.take(j));
        entered.lemma_index_never_changes(key, rest);
    }

    /// A run of packets keeps every record at the position that its index
    /// names.
    pub proof fn lemma_add_packets_indices_stable(self, arrivals: Seq<Arrival>)
        requires
            self.indices_stable(),
        ensures
            self.add_packets(arrivals).indices_stable(),
        decreases arrivals.len(),
    {
        if arrivals.len() > 0 {
            let last = arrivals.last();
            self.lemma_add_packets_indices_stable(arrivals.drop_last());
            self.add_packets(arrivals.drop_last()).lemma_add_packet_indices_stable(
                last.packet,
                last.now,
                last.country,
            );
        }
    }

    /// No total ever goes down: after a run of packets each of them is at
    /// least what it was.
    pub proof fn lemma_totals_never_decrease(self, arrivals: Seq<Arrival>)
        ensures
            self.add_packets(arrivals).all_packets == self.all_packets + arrivals.len(),
            self.add_packets(arrivals).all_bytes >= self.all_bytes,
            self.add_packets(arrivals).tot_sent_packets >= self.tot_sent_packets,
            self.add_packets(arrivals).tot_sent_bytes >= self.tot_sent_bytes,
            self.add_packets(arrivals).tot_received_packets >= self.tot_received_packets,
            self.add_packets(arrivals).tot_received_bytes >= self.tot_received_bytes,
        decreases arrivals.len(),
    {
        if arrivals.len() > 0 {
            self.lemma_totals_never_decrease(arrivals.drop_last());
        }
    }

    /// Adding two runs of packets one after the other is adding them all.
    pub proof fn lemma_add_packets_concat(self, first: Seq<Arrival>, second: Seq<Arrival>)
        ensures
            self.add_packets(first + second) == self.add_packets(first).add_packets(second),
        decreases second.len(),
    {
        if second.len() == 0 {
            assert(first + second =~= first);
        } else {
            self.lemma_add_packets_concat(first, second.drop_last());
            assert((first + second).drop_last() =~= first + second.drop_last());
            assert((first + second).last() == second.last());
        }
    }
}

/// The traffic aggregator of one capture session.
pub struct InfoTraffic {
    all_bytes: u128,
    all_packets: u128,
    tot_received_bytes: u128,
    tot_received_packets: u128,
    tot_sent_bytes: u128,
    tot_sent_packets: u128,
    keys: Vec<AddressPortPair>,
    records: Vec<InfoAddressPortPair>,
    app_protocols: Vec<u128>,
    addresses_last_interval: HashSet<usize>,
    favorites_last_interval: HashSet<usize>,
}

impl View for InfoTraffic {
    type V = InfoTrafficView;

    closed spec fn view(&self) -> InfoTrafficView {
        InfoTrafficView {
            all_bytes: self.all_bytes as nat,
            all_packets: self.all_packets as nat,
            tot_received_bytes: self.tot_received_bytes as nat,
            tot_received_packets: self.tot_received_packets as nat,
            tot_sent_bytes: self.tot_sent_bytes as nat,
            tot_sent_packets: self.tot_sent_packets as nat,
            map: Seq::new(self.keys@.len(), |i: int| (self.keys@[i]@, self.records@[i]@)),
            app_protocols: Map::total(|p: AppProtocol| self.app_protocols@[p.ordinal()] as nat),
            addresses_last_interval: self.addresses_last_interval@,
            favorites_last_interval: self.favorites_last_interval@,
        }
    }
}

impl InfoTraffic {
    /// The invariant of the aggregator: that of its value, and that the
    /// value fits the machine.
    pub closed spec fn wf(&self) -> bool {
        &&& self.keys@.len() == self.records@.len()
        &&& self.app_protocols@.len() == APP_PROTOCOL_COUNT
        &&& self@.wf()
    }

    /// A valid aggregator has a valid value, whose counters fit in 128 bits.
    pub proof fn lemma_wf(&self)
        requires
            self.wf(),
        ensures
            self@.wf(),
            self@.all_packets <= u128::MAX,
            self@.all_bytes <= u128::MAX,
    {
    }

    /// Makes the aggregator of a session that has counted nothing.
    pub fn new() -> (info: Self)
        ensures
            info.wf(),
            info@ == InfoTrafficView::empty(),
    {
        let mut app_protocols: Vec<u128> = Vec::new();
        let mut i: usize = 0;
        while i < APP_PROTOCOL_COUNT
            invariant
                i <= APP_PROTOCOL_COUNT,
                app_protocols@.len() == i,
                forall|j: int| 0 <= j < i ==> app_protocols@[j] == 0,
            decreases APP_PROTOCOL_COUNT - i,
        {
            app_protocols.push(0);
            i = i + 1;
        }
        let info = InfoTraffic {
            all_bytes: 0,
            all_packets: 0,
            tot_received_bytes: 0,
            tot_received_packets: 0,
            tot_sent_bytes: 0,
            tot_sent_packets: 0,
            keys: Vec::new(),
            records: Vec::new(),
            app_protocols,
            addresses_last_interval: HashSet::new(),
            favorites_last_interval: HashSet::new(),
        };
        assert(info@.map =~= Seq::empty());
        assert(info@.app_protocols =~= Map::total(|p: AppProtocol| 0nat));
        info
    }

    /// Empties the aggregator for a new session: every counter, connection
    /// and interval set is gone.
    pub fn reset(&mut self)
        ensures
            final(self).wf(),
            final(self)@ == InfoTrafficView::empty(),
    {
        *self = InfoTraffic::new();
    }

    /// Packets counted, filtered out or not.
    pub fn all_packets(&self) -> (n: u128)
        ensures
            n == self@.all_packets,
    {
        self.all_packets
    }

    /// Bytes of every packet counted, filtered out or not.
    pub fn all_bytes(&self) -> (n: u128)
        ensures
            n == self@.all_bytes,
    {
        self.all_bytes
    }

    /// Reported outgoing packets.
    pub fn tot_sent_packets(&self) -> (n: u128)
        ensures
            n == self@.tot_sent_packets,
    {
        self.tot_sent_packets
    }

    /// Bytes of the reported outgoing packets.
    pub fn tot_sent_bytes(&self) -> (n: u128)
        ensures
            n == self@.tot_sent_bytes,
    {
        self.tot_sent_bytes
    }

    /// Reported packets that were not outgoing.
    pub fn tot_received_packets(&self) -> (n: u128)
        ensures
            n == self@.tot_received_packets,
    {
        self.tot_received_packets
    }

    /// Bytes of the reported packets that were not outgoing.
    pub fn tot_received_bytes(&self) -> (n: u128)
        ensures
            n == self@.tot_received_bytes,
    {
        self.tot_received_bytes
    }

    /// Number of connections.
    pub fn len(&self) -> (n: usize)
        requires
            self.wf(),
        ensures
            n == self@.map.len(),
    {
        self.keys.len()
    }

    /// Reported packets of an application protocol.
    pub fn app_protocol_packets(&self, protocol: AppProtocol) -> (n: u128)
        requires
            self.wf(),
        ensures
            n == self@.app_protocols[protocol],
    {
        self.app_protocols[protocol.index()]
    }

    /// The connection at a position, with its record.
    pub fn get_index(&self, index: usize) -> (entry: Option<(&AddressPortPair, &InfoAddressPortPair)>)
        requires
            self.wf(),
        ensures
            index < self@.map.len() ==> (entry matches Some(e) && (e.0@, e.1@)
                == self@.map[index as int]),
            index >= self@.map.len() ==> entry is None,
    {
        if index < self.keys.len() {
            Some((&self.keys[index], &self.records[index]))
        } else {
            None
        }
    }

    /// The connection at a position that holds one, with its record.
    pub fn connection(&self, index: usize) -> (entry: (&AddressPortPair, &InfoAddressPortPair))
        requires
            self.wf(),
            index < self@.map.len(),
        ensures
            (entry.0@, entry.1@) == self@.map[index as int],
    {
        (&self.keys[index], &self.records[index])
    }

    /// The position of a connection, if it has a record.
    pub fn get_index_of(&self, key: &AddressPortPair) -> (position: Option<usize>)
        requires
            self.wf(),
        ensures
            position is Some <==> self@.contains_key(key@),
            position matches Some(i) ==> self@.index_of(key@) == Some(i as int) && self@.key_at(
                key@,
                i as int,
            ),
    {
        let mut i: usize = 0;
        while i < self.keys.len()
            invariant
                i <= self.keys@.len(),
                self.wf(),
                forall|j: int| 0 <= j < i ==> !self@.key_at(key@, j),
            decreases self.keys@.len() - i,
        {
            if self.keys[i].equals(key) {
                proof {
                    assert(self@.key_at(key@, i as int));
                    let c = choose|c: int| self@.key_at(key@, c);
                    assert(self@.key_at(key@, c));
                    assert(c == i);
                }
                return Some(i);
            }
            i = i + 1;
        }
        None
    }

    /// Tells whether the connection at a position was touched since the last
    /// reset.
    pub fn touched_in_last_interval(&self, index: usize) -> (touched: bool)
        ensures
            touched == self@.addresses_last_interval.contains(index),
    {
        self.addresses_last_interval.contains(&index)
    }

    /// Tells which address has to be resolved to a country before `packet`
    /// is added: the remote one, if the packet is reported and its
    /// connection has no record yet. For every other packet nothing is to be
    /// resolved.
    pub fn country_request(&self, packet: &PacketInfo) -> (request: Option<String>)
        requires
            self.wf(),
        ensures
            match request {
                Some(address) => self@.country_request(packet@) == Some(address@),
                None => self@.country_request(packet@) is None,
            },
    {
        if !packet.reported {
            return None;
        }
        match self.get_index_of(&packet.key) {
            Some(_) => None,
            None => Some(address_to_lookup(packet.traffic_type, &packet.key).clone()),
        }
    }

    /// Tells whether `add_packet` has room for a packet of this size: no
    /// total would pass 128 bits.
    pub fn has_room_for(&self, exchanged_bytes: u128) -> (room: bool)
        ensures
            room == (self@.all_packets < u128::MAX && self@.all_bytes + exchanged_bytes
                <= u128::MAX),
    {
        self.all_packets < u128::MAX && exchanged_bytes <= u128::MAX - self.all_bytes
    }

    /// Adds one packet, read at `now`. A reported packet is entered for its
    /// connection first: a known connection is updated and marked as touched,
    /// a new one gets the next index and `country` as its country code. Then
    /// the packet is added to the totals.
    pub fn add_packet(&mut self, packet: PacketInfo, now: Timestamp, country: String)
        requires
            old(self).wf(),
            old(self)@.all_packets < u128::MAX,
            old(self)@.all_bytes + packet@.exchanged_bytes <= u128::MAX,
        ensures
            final(self).wf(),
            final(self)@ == old(self)@.add_packet(packet@, now, country@),
    {
        let ghost before = self@;
        let ghost packet_view = packet@;
        assert(before.map.len() == self.keys.len());
        let bytes = packet.exchanged_bytes;
        let application_protocol = packet.application_protocol;
        let traffic_type = packet.traffic_type;
        let reported = packet.reported;
        proof {
            before.lemma_index_of(packet_view.key);
        }
        if reported {
            match self.get_index_of(&packet.key) {
                Some(i) => {
                    let ghost record = self.records@[i as int]@;
                    assert(before.map[i as int].1 == record);
                    assert(record.transmitted_bytes <= before.all_bytes);
                    assert(record.transmitted_packets <= before.all_packets);
                    let is_favorite = self.records[i].is_favorite;
                    let transmitted_bytes = self.records[i].transmitted_bytes + bytes;
                    let transmitted_packets = self.records[i].transmitted_packets + 1;
                    self.records[i].transmitted_bytes = transmitted_bytes;
                    self.records[i].transmitted_packets = transmitted_packets;
                    self.records[i].final_timestamp = now;
                    self.addresses_last_interval.insert(i);
                    if is_favorite {
                        self.favorites_last_interval.insert(i);
                    }
                    assert(self@.map =~= before.report(packet_view, now, country@).map);
                },
                None => {
                    let index = self.keys.len();
                    let very_long_address = packet.key.address1.as_str().unicode_len() > 25
                        || packet.key.address2.as_str().unicode_len() > 25;
                    let record = InfoAddressPortPair {
                        transmitted_bytes: bytes,
                        transmitted_packets: 1,
                        initial_timestamp: now,
                        final_timestamp: now,
                        app_protocol: application_protocol,
                        very_long_address,
                        traffic_type,
                        country,
                        index,
                        is_favorite: false,
                    };
                    self.keys.push(packet.key);
                    self.records.push(record);
                    self.addresses_last_interval.insert(index);
                    assert(self@.map =~= before.report(packet_view, now, country@).map);
                },
            }
            assert(self@.app_protocols =~= before.app_protocols);
            assert(self@ == before.report(packet_view, now, country@));
        }
        let ghost entered = self@;
        self.all_packets = self.all_packets + 1;
        self.all_bytes = self.all_bytes + bytes;
        if reported {
            let slot = application_protocol.index();
            assert(before.app_protocols[application_protocol] <= before.all_packets);
            let packets = self.app_protocols[slot] + 1;
            self.app_protocols.set(slot, packets);
            if traffic_type == TrafficType::Outgoing {
                self.tot_sent_packets = self.tot_sent_packets + 1;
                self.tot_sent_bytes = self.tot_sent_bytes + bytes;
            } else {
                self.tot_received_packets = self.tot_received_packets + 1;
                self.tot_received_bytes = self.tot_received_bytes + bytes;
            }
        }
        proof {
            assert(self@.map =~= entered.count(packet_view).map);
            assert(self@.app_protocols =~= entered.count(packet_view).app_protocols);
            assert(self@ == entered.count(packet_view));
            before.lemma_add_packet_wf(packet_view, now, country@);
        }
    }

    /// Marks, or unmarks, the connection at `index` as a favorite. An index
    /// that names no connection changes nothing.
    pub fn set_favorite(&mut self, index: usize, is_favorite: bool)
        requires
            old(self).wf(),
        ensures
            final(self).wf(),
            final(self)@ == old(self)@.set_favorite(index as int, is_favorite),
    {
        let ghost before = self@;
        if index < self.records.len() {
            self.records[index].is_favorite = is_favorite;
            proof {
                assert(self@.map =~= before.set_favorite(index as int, is_favorite).map);
                assert(self@.app_protocols =~= before.app_protocols);
            }
        }
        proof {
            before.lemma_set_favorite_wf(index as int, is_favorite);
        }
    }

    /// Resets the two interval sets.
    pub fn clear_last_interval(&mut self)
        requires
            old(self).wf(),
        ensures
            final(self).wf(),
            final(self)@ == old(self)@.clear_last_interval(),
    {
        let ghost before = self@;
        self.addresses_last_interval.clear();
        self.favorites_last_interval.clear();
        proof {
            assert(self@.map =~= before.map);
            assert(self@.app_protocols =~= before.app_protocols);
        }
    }

    /// The positions of the favorite connections touched since the last
    /// reset, each once, in the order in which the set hands them out.
    pub fn favorites_last_interval(&self) -> (indices: Vec<usize>)
        requires
            self.wf(),
        ensures
            indices@.no_duplicates(),
            indices@.to_set() == self@.favorites_last_interval,
            forall|j: int| 0 <= j < indices@.len() ==> indices@[j] < self@.map.len(),
    {
        let mut indices: Vec<usize> = Vec::new();
        let ghost order = spec_hash_keys_iter(&self.favorites_last_interval).remaining().unref();
        proof {
            let refs = spec_hash_keys_iter(&self.favorites_last_interval).remaining();
            assert forall|i: int, j: int| 0 <= i < j < order.len() implies order[i] != order[j] by {
                assert(refs[i] != refs[j]);
            }
        }
        for index in it: self.favorites_last_interval.iter()
            invariant
                it.seq().unref() == order,
                indices@ == order.subrange(0, it.index()),
        {
            assert(*index == order[it.index()]);
            indices.push(*index);
            assert(indices@ =~= order.subrange(0, it.index() + 1));
        }
        proof {
            assert(indices@ =~= order);
            assert(order.to_set() == self@.favorites_last_interval);
            assert forall|j: int| 0 <= j < indices@.len() implies indices@[j] < self@.map.len() by {
                assert(order.contains(order[j]));
                assert(order.to_set().contains(order[j]));
                assert(self@.favorites_last_interval.contains(indices@[j]));
            }
        }
        indices
    }

    /// Tells whether the connection at a position is a favorite that was
    /// touched since the last reset.
    pub fn favorite_in_last_interval(&self, index: usize) -> (touched: bool)
        ensures
            touched == self@.favorites_last_interval.contains(index),
    {
        self.favorites_last_interval.contains(&index)
    }
}

} // verus!
