//! The capture worker: one per capture session, stopped by a change of the
//! shared capture id.

use crate::classifier::{classification_of, texts};
use crate::clock::{local_now, Timestamp};
use crate::filters::Filters;
use crate::headers::{ethernet_frame_headers, FrameHeaders};
use crate::info_traffic::{InfoTraffic, InfoTrafficView};
use crate::packet::{analyze_frame, packet_of, packet_view, PacketInfo, PacketView};
use vstd::prelude::*;

verus! {

/// Whether a worker still belongs to the current capture session.
#[derive(Clone, Copy, Debug, PartialEq, Eq, Structural)]
pub enum CaptureState {
    /// The worker's session is the current one, as far as it has seen.
    Running,
    /// The worker has seen another capture id than its own: it is to end.
    Stale,
}

/// What one round of the capture loop brings.
pub struct CaptureEvent {
    /// The shared capture id, read after the attempt to read a packet.
    pub current_capture_id: u16,
    /// The packet that was read and analyzed; none after a failed read, a
    /// frame that could not be parsed or a packet to skip.
    pub packet: Option<PacketView>,
    /// The reading of the clock for this round.
    pub now: Timestamp,
    /// The country code found for the address that had to be resolved;
    /// empty where none was found or none was asked for.
    pub country: Seq<char>,
}

/// The event of a round, from its parts.
pub open spec fn round(
    current_capture_id: u16,
    packet: Option<PacketView>,
    now: Timestamp,
    country: Seq<char>,
) -> CaptureEvent {
    CaptureEvent { current_capture_id, packet, now, country }
}

/// The state of a worker after it has seen the shared capture id: stale
/// once that differs from its own, and stale for ever after.
pub open spec fn next_state(capture_id: u16, state: CaptureState, current_capture_id: u16) -> CaptureState {
    if state == CaptureState::Stale || current_capture_id != capture_id {
        CaptureState::Stale
    } else {
        CaptureState::Running
    }
}

/// The aggregator after an event: a worker that stays running adds the
/// packet, if there is one; anything else leaves the aggregator as it is.
pub open spec fn next_traffic(
    capture_id: u16,
    state: CaptureState,
    traffic: InfoTrafficView,
    event: CaptureEvent,
) -> InfoTrafficView {
    match event.packet {
        Some(packet) if next_state(capture_id, state, event.current_capture_id)
            == CaptureState::Running => traffic.add_packet(
            packet,
            event.now,
            event.country,
        ),
        _ => traffic,
    }
}

/// The address that has to be resolved to a country before the event is
/// handled: that which the aggregator asks for the packet, if the worker
/// stays running.
pub open spec fn country_request_of(
    capture_id: u16,
    state: CaptureState,
    traffic: InfoTrafficView,
    current_capture_id: u16,
    packet: Option<PacketView>,
) -> Option<Seq<char>> {
    match packet {
        Some(p) if state == CaptureState::Running && current_capture_id == capture_id => traffic.country_request(p),
        _ => None,
    }
}

/// The state of a worker and the aggregator after a run of events, the
/// first of them first.
pub open spec fn run(
    capture_id: u16,
    state: CaptureState,
    traffic: InfoTrafficView,
    events: Seq<CaptureEvent>,
) -> (CaptureState, InfoTrafficView)
    decreases events.len(),
{
    if events.len() == 0 {
        (state, traffic)
    } else {
        let (s, t) = run(capture_id, state, traffic, events.drop_last());
        (
            next_state(capture_id, s, events.last().current_capture_id),
            next_traffic(capture_id, s, t, events.last()),
        )
    }
}

/// A packet that the classifier says to skip never reaches the aggregator:
/// the round that brings it leaves every counter, and all the rest, as it
/// was.
pub proof fn lemma_skipped_packet_changes_nothing(
    capture_id: u16,
    state: CaptureState,
    traffic: InfoTrafficView,
    headers: FrameHeaders,
    interface_addresses: Seq<Seq<char>>,
    filters: Filters,
    current_capture_id: u16,
    now: Timestamp,
    country: Seq<char>,
)
    requires
        classification_of(headers).skip,
    ensures
        packet_of(Some(headers), interface_addresses, filters) is None,
        next_traffic(
            capture_id,
            state,
            traffic,
            round(
                current_capture_id,
                packet_of(Some(headers), interface_addresses, filters),
                now,
                country,
            ),
        ) == traffic,
{
}

/// A running worker that sees its own capture id adds the packet of the
/// round: it counts for the global totals, whatever the filters said.
pub proof fn lemma_accepted_packet_counts(
    capture_id: u16,
    traffic: InfoTrafficView,
    packet: PacketView,
    now: Timestamp,
    country: Seq<char>,
)
    ensures
        ({
            let after = next_traffic(
                capture_id,
                CaptureState::Running,
                traffic,
                round(capture_id, Some(packet), now, country),
            );
            &&& after == traffic.add_packet(packet, now, country)
            &&& after.all_packets == traffic.all_packets + 1
            &&& after.all_bytes == traffic.all_bytes + packet.exchanged_bytes
        }),
{
}

/// A stale worker stays stale and changes nothing in the aggregator,
/// whatever comes.
pub proof fn lemma_stale_worker_changes_nothing(
    capture_id: u16,
    traffic: InfoTrafficView,
    events: Seq<CaptureEvent>,
)
    ensures
        run(capture_id, CaptureState::Stale, traffic, events) == (CaptureState::Stale, traffic),
    decreases events.len(),
{
    if events.len() > 0 {
        lemma_stale_worker_changes_nothing(capture_id, traffic, events.drop_last());
    }
}

/// Running two runs of events one after the other is running them all.
pub proof fn lemma_run_concat(
    capture_id: u16,
    state: CaptureState,
    traffic: InfoTrafficView,
    first: Seq<CaptureEvent>,
    second: Seq<CaptureEvent>,
)
    ensures
        ({
            let (s, t) = run(capture_id, state, traffic, first);
            run(capture_id, state, traffic, first + second) == run(capture_id, s, t, second)
        }),
    decreases second.len(),
{
    if second.len() == 0 {
        assert(first + second =~= first);
    } else {
        lemma_run_concat(capture_id, state, traffic, first, second.drop_last());
        assert((first + second).drop_last() =~= first + second.drop_last());
        assert((first + second).last() == second.last());
    }
}

/// Once the shared capture id has changed, the worker changes the
/// aggregator no more: if the `k`-th event shows another capture id than
/// the worker's own, the aggregator after all events is the one after the
/// first `k`.
pub proof fn lemma_no_mutation_after_bump(
    capture_id: u16,
    state: CaptureState,
    traffic: InfoTrafficView,
    events: Seq<CaptureEvent>,
    k: int,
)
    requires
        0 <= k < events.len(),
        events[k].current_capture_id != capture_id,
    ensures
        run(capture_id, state, traffic, events).0 == CaptureState::Stale,
        run(capture_id, state, traffic, events).1 == run(capture_id, state, traffic, events.take(k)).1,
{
    let seen = events.take(k + 1);
    let rest = events.subrange(k + 1, events.len() as int);
    assert(seen.drop_last() =~= events.take(k));
    assert(seen.last() == events[k]);
    assert(seen + rest =~= events);
    let (s, t) = run(capture_id, state, traffic, seen);
    lemma_run_concat(capture_id, state, traffic, seen, rest);
    lemma_stale_worker_changes_nothing(capture_id, t, rest);
}

/// The worker of one capture session.
pub struct CaptureWorker {
    capture_id: u16,
    state: CaptureState,
    my_interface_addresses: Vec<String>,
    filters: Filters,
}

impl CaptureWorker {
    /// The capture id of the worker's session.
    pub closed spec fn spec_capture_id(&self) -> u16 {
        self.capture_id
    }

    /// The state of the worker.
    pub closed spec fn spec_state(&self) -> CaptureState {
        self.state
    }

    /// The addresses of the capturing interface, as texts.
    pub closed spec fn spec_interface_addresses(&self) -> Seq<Seq<char>> {
        texts(self.my_interface_addresses@)
    }

    /// The filters of the session.
    pub closed spec fn spec_filters(&self) -> Filters {
        self.filters
    }

    /// Starts the worker of the session `capture_id`, on an interface that
    /// owns `my_interface_addresses`, each written as `ipv4_to_string` or
    /// `ipv6_to_string` writes it.
    pub fn new(capture_id: u16, my_interface_addresses: Vec<String>, filters: Filters) -> (worker: Self)
        ensures
            worker.spec_capture_id() == capture_id,
            worker.spec_state() == CaptureState::Running,
            worker.spec_interface_addresses() == texts(my_interface_addresses@),
            worker.spec_filters() == filters,
    {
        CaptureWorker { capture_id, state: CaptureState::Running, my_interface_addresses, filters }
    }

    /// The capture id of the worker's session.
    #[verifier::when_used_as_spec(spec_capture_id)]
    pub fn capture_id(&self) -> (id: u16)
        ensures
            id == self.spec_capture_id(),
    {
        self.capture_id
    }

    /// The state of the worker.
    #[verifier::when_used_as_spec(spec_state)]
    pub fn state(&self) -> (state: CaptureState)
        ensures
            state == self.spec_state(),
    {
        self.state
    }

    /// Takes note of the shared capture id, as read after an attempt to
    /// read a packet: the worker turns stale if the id is not its own.
    pub fn observe(&mut self, current_capture_id: u16) -> (state: CaptureState)
        ensures
            state == final(self).state(),
            final(self).capture_id() == old(self).capture_id(),
            final(self).spec_interface_addresses() == old(self).spec_interface_addresses(),
            final(self).spec_filters() == old(self).spec_filters(),
            final(self).state() == next_state(
                old(self).capture_id(),
                old(self).state(),
                current_capture_id,
            ),
    {
        if current_capture_id != self.capture_id {
            self.state = CaptureState::Stale;
        }
        self.state
    }

    /// Turns a frame that was read into a packet to count, for the worker's
    /// interface and filters.
    pub fn analyze_frame(&self, frame: &[u8]) -> (packet: Option<PacketInfo>)
        ensures
            packet_view(packet) == packet_of(
                ethernet_frame_headers(frame@),
                self.spec_interface_addresses(),
                self.spec_filters(),
            ),
            packet matches Some(p) ==> p.exchanged_bytes <= u16::MAX,
    {
        analyze_frame(frame, &self.my_interface_addresses, &self.filters)
    }

    /// Tells which address has to be resolved to a country before the round
    /// is handled by `step`; nothing for a worker that is or becomes stale.
    pub fn country_request(
        &self,
        current_capture_id: u16,
        packet: &Option<PacketInfo>,
        info_traffic: &InfoTraffic,
    ) -> (request: Option<String>)
        requires
            info_traffic.wf(),
        ensures
            match request {
                Some(address) => Some(address@) == country_request_of(
                    self.capture_id(),
                    self.state(),
                    info_traffic@,
                    current_capture_id,
                    packet_view(*packet),
                ),
                None => country_request_of(
                    self.capture_id(),
                    self.state(),
                    info_traffic@,
                    current_capture_id,
                    packet_view(*packet),
                ) is None,
            },
    {
        if self.state == CaptureState::Stale || current_capture_id != self.capture_id {
            return None;
        }
        match packet {
            Some(p) => info_traffic.country_request(p),
            None => None,
        }
    }

    /// Handles one round of the capture loop, with the clock read at `now`.
    /// The worker turns stale if the shared capture id is not its own, and a
    /// stale worker leaves the aggregator as it is. A running worker adds
    /// the packet, if the round brought one.
    pub fn step_at(
        &mut self,
        current_capture_id: u16,
        packet: Option<PacketInfo>,
        now: Timestamp,
        country: String,
        info_traffic: &mut InfoTraffic,
    ) -> (state: CaptureState)
        requires
            old(info_traffic).wf(),
            packet matches Some(p) ==> old(info_traffic)@.all_packets < u128::MAX && old(
                info_traffic,
            )@.all_bytes + p@.exchanged_bytes <= u128::MAX,
        ensures
            final(info_traffic).wf(),
            state == final(self).state(),
            final(self).capture_id() == old(self).capture_id(),
            final(self).spec_interface_addresses() == old(self).spec_interface_addresses(),
            final(self).spec_filters() == old(self).spec_filters(),
            final(self).state() == next_state(
                old(self).capture_id(),
                old(self).state(),
                current_capture_id,
            ),
            final(info_traffic)@ == next_traffic(
                old(self).capture_id(),
                old(self).state(),
                old(info_traffic)@,
                round(current_capture_id, packet_view(packet), now, country@),
            ),
    {
        if self.state == CaptureState::Stale || current_capture_id != self.capture_id {
            self.state = CaptureState::Stale;
            return CaptureState::Stale;
        }
        match packet {
            Some(p) => {
                info_traffic.add_packet(p, now, country);
            },
            None => {},
        }
        CaptureState::Running
    }

    /// Handles one round of the capture loop: reads the clock, then does
    /// what `step_at` does with that reading.
    pub fn step(
        &mut self,
        current_capture_id: u16,
        packet: Option<PacketInfo>,
        country: String,
        info_traffic: &mut InfoTraffic,
    ) -> (state: CaptureState)
        requires
            old(info_traffic).wf(),
            packet matches Some(p) ==> old(info_traffic)@.all_packets < u128::MAX && old(
                info_traffic,
            )@.all_bytes + p@.exchanged_bytes <= u128::MAX,
        ensures
            final(info_traffic).wf(),
            state == final(self).state(),
            final(self).capture_id() == old(self).capture_id(),
            final(self).spec_interface_addresses() == old(self).spec_interface_addresses(),
            final(self).spec_filters() == old(self).spec_filters(),
            final(self).state() == next_state(
                old(self).capture_id(),
                old(self).state(),
                current_capture_id,
            ),
            exists|now: Timestamp|
                final(info_traffic)@ == next_traffic(
                    old(self).capture_id(),
                    old(self).state(),
                    old(info_traffic)@,
                    #[trigger] round(current_capture_id, packet_view(packet), now, country@),
                ),
    {
        let now = local_now();
        let ghost event = round(current_capture_id, packet_view(packet), now, country@);
        let state = self.step_at(current_capture_id, packet, now, country, info_traffic);
        assert(info_traffic@ == next_traffic(
            old(self).capture_id(),
            old(self).state(),
            old(info_traffic)@,
            event,
        ));
        state
    }
}

} // verus!
