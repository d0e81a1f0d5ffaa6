//! What a tunnel does over time, in whatever order its tasks get to run. Each step
//! changes what the tasks share as one of the methods of a running tunnel does.
use crate::tunnel::address::SocketAddr;
use crate::tunnel::forward::{BUF_SIZE, TunnelState};
use crate::tunnel::queue::DESTINATION_QUEUE;
use vstd::prelude::*;

verus! {

/// A tunnel at one moment, with what it has done so far.
pub struct TunnelHistory {
    /// The destination that it was started with.
    pub preset: Option<SocketAddr>,
    /// What its tasks share.
    pub state: TunnelState,
    /// Whether there was no room for the latest sender that had to be announced.
    pub refused: bool,
    /// The data of the datagrams that it received.
    pub received: Seq<Seq<u8>>,
    /// The data of the streams that it wrote.
    pub written: Seq<Seq<u8>>,
    /// The datagrams that it sent from the local socket.
    pub sent: Seq<(Seq<u8>, SocketAddr)>,
}

/// What one of the tasks does next.
pub enum TunnelStep {
    /// A datagram is received from this sender (`on_datagram`).
    Receive(SocketAddr, Seq<u8>),
    /// The next datagram is written to a stream (`next_datagram`).
    Write,
    /// The announced destinations are taken (`take_destinations`).
    TakeDestinations,
    /// A stream is read and holds this data (`on_stream`).
    Read(Seq<u8>),
    /// The task that receives datagrams comes to its end (`receiving_ended`).
    EndReceiving,
    /// The task that writes streams comes to its end (`sending_ended`).
    EndSending,
}

impl TunnelHistory {
    /// A tunnel that was just started.
    pub open spec fn started(preset: Option<SocketAddr>) -> TunnelHistory {
        TunnelHistory {
            preset,
            state: TunnelState::started(preset),
            refused: false,
            received: Seq::empty(),
            written: Seq::empty(),
            sent: Seq::empty(),
        }
    }

    /// The tunnel after `step`. A task that came to its end does nothing.
    pub open spec fn after(self, step: TunnelStep) -> TunnelHistory {
        match step {
            TunnelStep::Receive(source, data) => if self.state.receiving {
                TunnelHistory {
                    state: self.state.received(source, data),
                    refused: if self.state.announces(source) {
                        !self.state.has_room()
                    } else {
                        self.refused
                    },
                    received: if self.state.sending {
                        self.received.push(data)
                    } else {
                        self.received
                    },
                    ..self
                }
            } else {
                self
            },
            TunnelStep::Write => if self.state.sending && self.state.datagrams.len() > 0 {
                TunnelHistory {
                    state: self.state.written(),
                    written: self.written.push(self.state.datagrams.first()),
                    ..self
                }
            } else {
                self
            },
            TunnelStep::TakeDestinations => TunnelHistory {
                state: self.state.destinations_taken(),
                ..self
            },
            TunnelStep::Read(data) => TunnelHistory {
                sent: match self.state.delivery(data) {
                    Some(delivered) => self.sent.push(delivered),
                    None => self.sent,
                },
                ..self
            },
            TunnelStep::EndReceiving => TunnelHistory {
                state: TunnelState { receiving: false, ..self.state },
                ..self
            },
            TunnelStep::EndSending => TunnelHistory {
                state: TunnelState { sending: false, ..self.state },
                ..self
            },
        }
    }

    /// The tunnel after all of `steps`, first to last.
    pub open spec fn after_all(self, steps: Seq<TunnelStep>) -> TunnelHistory
        decreases steps.len(),
    {
        if steps.len() == 0 {
            self
        } else {
            self.after_all(steps.drop_last()).after(steps.last())
        }
    }

    /// The tunnel after it took the announced destinations and then read `data`
    /// from a stream.
    pub open spec fn after_stream(self, data: Seq<u8>) -> TunnelHistory {
        self.after(TunnelStep::TakeDestinations).after(TunnelStep::Read(data))
    }

    /// The destination that was announced last, taken or not.
    pub open spec fn newest_destination(self) -> Option<SocketAddr> {
        if self.state.destinations.len() > 0 {
            Some(self.state.destinations.last())
        } else {
            self.state.destination
        }
    }

    /// The peer on the local side: whoever wrote last, or the preset destination
    /// before anyone has written.
    pub open spec fn local_peer(self) -> Option<SocketAddr> {
        if self.state.last is Some {
            self.state.last
        } else {
            self.preset
        }
    }

    /// What every tunnel keeps.
    pub open spec fn keeps(self) -> bool {
        &&& self.written + self.state.datagrams == self.received
        &&& self.state.destinations.len() <= DESTINATION_QUEUE
        &&& self.state.last is None ==> !self.refused
        &&& self.state.receiving && !self.refused ==> self.newest_destination()
            == self.local_peer()
        &&& self.state.receiving && self.state.destination is None ==> self.sent.len() == 0
    }
}

/// A tunnel keeps with each step what it keeps.
proof fn lemma_step(tunnel: TunnelHistory, step: TunnelStep)
    requires
        tunnel.keeps(),
    ensures
        tunnel.after(step).keeps(),
        tunnel.after(step).preset == tunnel.preset,
{
    let next = tunnel.after(step);
    assert(next.written + next.state.datagrams =~= next.received);
}

/// A tunnel keeps at all times what it keeps.
proof fn lemma_steps(preset: Option<SocketAddr>, steps: Seq<TunnelStep>)
    ensures
        TunnelHistory::started(preset).after_all(steps).keeps(),
        TunnelHistory::started(preset).after_all(steps).preset == preset,
    decreases steps.len(),
{
    let start = TunnelHistory::started(preset);
    if steps.len() == 0 {
        assert(start.written + start.state.datagrams =~= start.received);
    } else {
        lemma_steps(preset, steps.drop_last());
        lemma_step(start.after_all(steps.drop_last()), steps.last());
    }
}

/// Nothing that was received is lost, changed or put in another order: what was
/// written to streams, followed by what still waits, is what was received.
pub proof fn law_datagrams_are_written_in_order(
    preset: Option<SocketAddr>,
    steps: Seq<TunnelStep>,
)
    ensures
        ({
            let tunnel = TunnelHistory::started(preset).after_all(steps);
            tunnel.written + tunnel.state.datagrams == tunnel.received
        }),
{
    lemma_steps(preset, steps);
}

/// Whether all datagrams that are received in `steps` fit into the buffer.
pub open spec fn datagrams_fit(steps: Seq<TunnelStep>) -> bool {
    forall|i: int| #![trigger steps[i]]
        0 <= i < steps.len() ==> match steps[i] {
            TunnelStep::Receive(_, data) => data.len() <= BUF_SIZE,
            _ => true,
        }
}

proof fn lemma_received_fit(preset: Option<SocketAddr>, steps: Seq<TunnelStep>)
    requires
        datagrams_fit(steps),
    ensures
        ({
            let tunnel = TunnelHistory::started(preset).after_all(steps);
            forall|i: int|
                0 <= i < tunnel.received.len() ==> (#[trigger] tunnel.received[i]).len()
                    <= BUF_SIZE
        }),
    decreases steps.len(),
{
    if steps.len() > 0 {
        let shorter = steps.drop_last();
        assert(datagrams_fit(shorter)) by {
            assert forall|i: int| #![trigger shorter[i]] 0 <= i < shorter.len() implies match shorter[i] {
                TunnelStep::Receive(_, data) => data.len() <= BUF_SIZE,
                _ => true,
            } by {
                assert(shorter[i] == steps[i]);
            }
        }
        lemma_received_fit(preset, shorter);
        assert(steps[steps.len() - 1] == steps.last());
    }
}

/// No stream that a tunnel writes is longer than what the other end reads of one:
/// as datagrams are received into a buffer of [`BUF_SIZE`] bytes, every stream has
/// at most as many.
pub proof fn law_streams_fit(preset: Option<SocketAddr>, steps: Seq<TunnelStep>)
    requires
        datagrams_fit(steps),
    ensures
        ({
            let tunnel = TunnelHistory::started(preset).after_all(steps);
            forall|i: int|
                0 <= i < tunnel.written.len() ==> (#[trigger] tunnel.written[i]).len() <= BUF_SIZE
        }),
        BUF_SIZE == 1500,
{
    lemma_steps(preset, steps);
    lemma_received_fit(preset, steps);
    let tunnel = TunnelHistory::started(preset).after_all(steps);
    assert forall|i: int| 0 <= i < tunnel.written.len() implies (#[trigger] tunnel.written[i]).len()
        <= BUF_SIZE by {
        assert((tunnel.written + tunnel.state.datagrams)[i] == tunnel.written[i]);
        assert(tunnel.received[i].len() <= BUF_SIZE);
    }
}

/// No more destinations wait than there is room for.
pub proof fn law_destinations_are_bounded(preset: Option<SocketAddr>, steps: Seq<TunnelStep>)
    ensures
        TunnelHistory::started(preset).after_all(steps).state.destinations.len()
            <= DESTINATION_QUEUE,
        TunnelHistory::started(preset).after_all(steps).state.destinations.len() <= 10,
{
    lemma_steps(preset, steps);
}

/// Answers go to whoever wrote last, or to the preset destination before anyone
/// has, and are dropped if there is neither. This holds while datagrams are
/// received, if there was room for the latest sender that had to be announced.
pub proof fn law_answers_go_to_the_local_peer(
    preset: Option<SocketAddr>,
    steps: Seq<TunnelStep>,
    data: Seq<u8>,
)
    requires
        TunnelHistory::started(preset).after_all(steps).state.receiving,
        !TunnelHistory::started(preset).after_all(steps).refused,
    ensures
        ({
            let tunnel = TunnelHistory::started(preset).after_all(steps);
            tunnel.after_stream(data).sent == match tunnel.local_peer() {
                Some(peer) => tunnel.sent.push((data, peer)),
                None => tunnel.sent,
            }
        }),
{
    lemma_steps(preset, steps);
}

/// Once a destination is known, no data that is read from a stream is dropped, as
/// long as datagrams are received.
pub proof fn law_no_stream_is_dropped_after_a_destination(
    preset: Option<SocketAddr>,
    before: Seq<TunnelStep>,
    after: Seq<TunnelStep>,
    data: Seq<u8>,
)
    requires
        TunnelHistory::started(preset).after_all(before).state.destination is Some,
        TunnelHistory::started(preset).after_all(before).after_all(after).state.receiving,
    ensures
        ({
            let tunnel = TunnelHistory::started(preset).after_all(before).after_all(after);
            &&& tunnel.state.destination is Some
            &&& tunnel.after(TunnelStep::Read(data)).sent == tunnel.sent.push(
                (data, tunnel.state.destination->0),
            )
        }),
    decreases after.len(),
{
    if after.len() > 0 {
        law_no_stream_is_dropped_after_a_destination(preset, before, after.drop_last(), data);
    }
}

/// Before a destination is known, nothing is sent.
pub proof fn law_nothing_is_sent_without_a_destination(
    preset: Option<SocketAddr>,
    steps: Seq<TunnelStep>,
)
    requires
        TunnelHistory::started(preset).after_all(steps).state.receiving,
        TunnelHistory::started(preset).after_all(steps).state.destination is None,
    ensures
        TunnelHistory::started(preset).after_all(steps).sent.len() == 0,
{
    lemma_steps(preset, steps);
}

/// Once datagrams are no longer received, what is read from streams is dropped.
pub proof fn law_nothing_is_sent_after_receiving_ended(
    preset: Option<SocketAddr>,
    steps: Seq<TunnelStep>,
    data: Seq<u8>,
)
    requires
        !TunnelHistory::started(preset).after_all(steps).state.receiving,
    ensures
        ({
            let tunnel = TunnelHistory::started(preset).after_all(steps);
            tunnel.after_stream(data).sent == tunnel.sent
        }),
{
}

/// Who wrote last in `steps`: the sender of the last datagram that was received
/// while datagrams were received.
pub open spec fn last_writer(steps: Seq<TunnelStep>) -> Option<SocketAddr>
    decreases steps.len(),
{
    if steps.len() == 0 {
        None
    } else {
        match steps.last() {
            TunnelStep::Receive(source, _) => if steps.contains(TunnelStep::EndReceiving) {
                last_writer(steps.drop_last())
            } else {
                Some(source)
            },
            _ => last_writer(steps.drop_last()),
        }
    }
}

/// The data of the datagrams that came in `steps` while datagrams were received and
/// streams written, first to last.
pub open spec fn payloads(steps: Seq<TunnelStep>) -> Seq<Seq<u8>>
    decreases steps.len(),
{
    if steps.len() == 0 {
        Seq::empty()
    } else {
        match steps.last() {
            TunnelStep::Receive(_, data) => if steps.contains(TunnelStep::EndReceiving)
                || steps.contains(TunnelStep::EndSending) {
                payloads(steps.drop_last())
            } else {
                payloads(steps.drop_last()).push(data)
            },
            _ => payloads(steps.drop_last()),
        }
    }
}

/// How many datagrams come in `steps`.
pub open spec fn receipts(steps: Seq<TunnelStep>) -> nat
    decreases steps.len(),
{
    if steps.len() == 0 {
        0
    } else {
        receipts(steps.drop_last()) + (if steps.last() is Receive {
            1nat
        } else {
            0nat
        })
    }
}

/// A step is among others if it is the last of them or among those before it.
proof fn lemma_among(steps: Seq<TunnelStep>, step: TunnelStep)
    requires
        steps.len() > 0,
    ensures
        steps.contains(step) <==> steps.last() == step || steps.drop_last().contains(step),
{
    let shorter = steps.drop_last();
    if steps.contains(step) {
        let i = choose|i: int| 0 <= i < steps.len() && steps[i] == step;
        if i < shorter.len() {
            assert(shorter[i] == step);
        }
    }
    if shorter.contains(step) {
        let i = choose|i: int| 0 <= i < shorter.len() && shorter[i] == step;
        assert(steps[i] == step);
    }
    assert(steps[steps.len() - 1] == steps.last());
}

/// A task runs until it comes to its end, and nothing but that ends it: datagrams
/// are received exactly as long as no step ended that, and streams are written
/// exactly as long as no step ended that.
pub proof fn law_tasks_run_until_they_end(preset: Option<SocketAddr>, steps: Seq<TunnelStep>)
    ensures
        !TunnelHistory::started(preset).after_all(steps).state.receiving <==> steps.contains(
            TunnelStep::EndReceiving,
        ),
        !TunnelHistory::started(preset).after_all(steps).state.sending <==> steps.contains(
            TunnelStep::EndSending,
        ),
    decreases steps.len(),
{
    if steps.len() > 0 {
        law_tasks_run_until_they_end(preset, steps.drop_last());
        lemma_among(steps, TunnelStep::EndReceiving);
        lemma_among(steps, TunnelStep::EndSending);
    }
}

/// A tunnel that receives a datagram remembers its sender, whoever that is; and
/// nothing else changes whom it remembers.
pub proof fn law_each_datagram_makes_its_sender_the_last(
    tunnel: TunnelHistory,
    source: SocketAddr,
    data: Seq<u8>,
    other: TunnelStep,
)
    requires
        other !is Receive,
    ensures
        tunnel.state.receiving ==> tunnel.after(TunnelStep::Receive(source, data)).state.last
            == Some(source),
        tunnel.state.receiving ==> tunnel.after(TunnelStep::Receive(source, data)).local_peer()
            == Some(source),
        tunnel.after(other).state.last == tunnel.state.last,
{
}

/// Who wrote last is read off the steps, and the local peer is whoever that is, or
/// the preset destination if nobody wrote.
pub proof fn law_the_last_writer_is_the_local_peer(
    preset: Option<SocketAddr>,
    steps: Seq<TunnelStep>,
)
    ensures
        TunnelHistory::started(preset).after_all(steps).state.last == last_writer(steps),
        TunnelHistory::started(preset).after_all(steps).local_peer() == match last_writer(steps) {
            Some(source) => Some(source),
            None => preset,
        },
    decreases steps.len(),
{
    lemma_steps(preset, steps);
    law_tasks_run_until_they_end(preset, steps);
    if steps.len() > 0 {
        law_the_last_writer_is_the_local_peer(preset, steps.drop_last());
        law_tasks_run_until_they_end(preset, steps.drop_last());
        lemma_among(steps, TunnelStep::EndReceiving);
    }
}

/// If the datagram of step `i` was received, and none came after it, then its sender
/// is whoever wrote last, and the local peer.
pub proof fn law_the_sender_of_the_last_datagram_wrote_last(
    preset: Option<SocketAddr>,
    steps: Seq<TunnelStep>,
    i: int,
    source: SocketAddr,
    data: Seq<u8>,
)
    requires
        0 <= i < steps.len(),
        steps[i] == TunnelStep::Receive(source, data),
        forall|j: int| 0 <= j < i ==> #[trigger] steps[j] !is EndReceiving,
        forall|j: int| i < j < steps.len() ==> #[trigger] steps[j] !is Receive,
    ensures
        last_writer(steps) == Some(source),
        TunnelHistory::started(preset).after_all(steps).state.last == Some(source),
        TunnelHistory::started(preset).after_all(steps).local_peer() == Some(source),
    decreases steps.len(),
{
    law_the_last_writer_is_the_local_peer(preset, steps);
    let shorter = steps.drop_last();
    if i == steps.len() - 1 {
        assert(steps.last() == steps[i]);
        assert(!steps.contains(TunnelStep::EndReceiving));
    } else {
        assert(steps[steps.len() - 1] !is Receive);
        assert(shorter[i] == steps[i]);
        assert forall|j: int| 0 <= j < i implies #[trigger] shorter[j] !is EndReceiving by {
            assert(shorter[j] == steps[j]);
        }
        assert forall|j: int| i < j < shorter.len() implies #[trigger] shorter[j] !is Receive by {
            assert(shorter[j] == steps[j]);
        }
        law_the_sender_of_the_last_datagram_wrote_last(preset, shorter, i, source, data);
    }
}

/// As long as no datagram has come, nobody wrote, and the local peer is the preset
/// destination.
pub proof fn law_nobody_wrote_before_the_first_datagram(
    preset: Option<SocketAddr>,
    steps: Seq<TunnelStep>,
)
    requires
        forall|j: int| 0 <= j < steps.len() ==> #[trigger] steps[j] !is Receive,
    ensures
        last_writer(steps) is None,
        TunnelHistory::started(preset).after_all(steps).state.last is None,
        TunnelHistory::started(preset).after_all(steps).local_peer() == preset,
        !TunnelHistory::started(preset).after_all(steps).refused,
    decreases steps.len(),
{
    lemma_steps(preset, steps);
    law_the_last_writer_is_the_local_peer(preset, steps);
    if steps.len() > 0 {
        let shorter = steps.drop_last();
        assert(steps[steps.len() - 1] !is Receive);
        assert forall|j: int| 0 <= j < shorter.len() implies #[trigger] shorter[j] !is Receive by {
            assert(shorter[j] == steps[j]);
        }
        law_nobody_wrote_before_the_first_datagram(preset, shorter);
    }
}

/// A tunnel starts with both tasks running, has heard from nobody and has nothing to
/// write; and what comes first over its connection goes to its preset destination,
/// whichever that is, and nowhere if it has none.
pub proof fn law_first_data_goes_to_the_preset_destination(
    preset: Option<SocketAddr>,
    data: Seq<u8>,
)
    ensures
        TunnelState::started(preset).last is None,
        TunnelState::started(preset).datagrams.len() == 0,
        TunnelState::started(preset).receiving,
        TunnelState::started(preset).sending,
        TunnelHistory::started(preset).after(TunnelStep::Read(data)).sent.len() == 0,
        match preset {
            Some(destination) => TunnelHistory::started(preset).after_stream(data).sent == seq![
                (data, destination),
            ],
            None => TunnelHistory::started(preset).after_stream(data).sent.len() == 0,
        },
{
}

/// Until the first datagram comes, data from streams goes to the preset destination,
/// and nowhere if there is none.
pub proof fn law_data_goes_to_the_preset_destination_at_first(
    preset: Option<SocketAddr>,
    steps: Seq<TunnelStep>,
    data: Seq<u8>,
)
    requires
        forall|j: int| 0 <= j < steps.len() ==> #[trigger] steps[j] !is Receive,
        !steps.contains(TunnelStep::EndReceiving),
    ensures
        ({
            let tunnel = TunnelHistory::started(preset).after_all(steps);
            tunnel.after_stream(data).sent == match preset {
                Some(destination) => tunnel.sent.push((data, destination)),
                None => tunnel.sent,
            }
        }),
{
    law_nobody_wrote_before_the_first_datagram(preset, steps);
    law_tasks_run_until_they_end(preset, steps);
    law_answers_go_to_the_local_peer(preset, steps, data);
}

/// Answers go to whoever wrote last, as the steps have it, or to the preset
/// destination before anyone has, and are dropped if there is neither. This holds
/// until the task that receives datagrams ends, if there was room for the latest
/// sender that had to be announced.
pub proof fn law_answers_go_to_the_last_writer(
    preset: Option<SocketAddr>,
    steps: Seq<TunnelStep>,
    data: Seq<u8>,
)
    requires
        !steps.contains(TunnelStep::EndReceiving),
        !TunnelHistory::started(preset).after_all(steps).refused,
    ensures
        ({
            let tunnel = TunnelHistory::started(preset).after_all(steps);
            tunnel.after_stream(data).sent == match last_writer(steps) {
                Some(source) => tunnel.sent.push((data, source)),
                None => match preset {
                    Some(destination) => tunnel.sent.push((data, destination)),
                    None => tunnel.sent,
                },
            }
        }),
{
    law_tasks_run_until_they_end(preset, steps);
    law_the_last_writer_is_the_local_peer(preset, steps);
    law_answers_go_to_the_local_peer(preset, steps, data);
}

/// There is no room for a sender only where ten destinations wait already. A sender
/// that wrote last is not announced again, and takes no room.
pub proof fn law_a_sender_is_refused_only_behind_ten_others(
    tunnel: TunnelHistory,
    source: SocketAddr,
    data: Seq<u8>,
    other: TunnelStep,
)
    requires
        tunnel.state.receiving,
        other !is Receive,
    ensures
        ({
            let next = tunnel.after(TunnelStep::Receive(source, data));
            if tunnel.state.last == Some(source) {
                &&& next.state.destinations == tunnel.state.destinations
                &&& next.refused == tunnel.refused
            } else if tunnel.state.destinations.len() < 10 {
                &&& next.state.destinations == tunnel.state.destinations.push(source)
                &&& !next.refused
            } else {
                &&& next.state.destinations == tunnel.state.destinations
                &&& next.refused
            }
        }),
        tunnel.after(other).refused == tunnel.refused,
{
}

/// However many datagrams one sender sends in a row, they announce it no more than
/// the first one did.
pub proof fn law_datagrams_in_a_row_announce_their_sender_once(
    tunnel: TunnelHistory,
    source: SocketAddr,
    steps: Seq<TunnelStep>,
)
    requires
        tunnel.state.last == Some(source),
        forall|j: int|
            0 <= j < steps.len() ==> #[trigger] steps[j] is Receive && steps[j]->Receive_0
                == source,
    ensures
        tunnel.after_all(steps).state.destinations == tunnel.state.destinations,
        tunnel.after_all(steps).state.last == Some(source),
        tunnel.after_all(steps).refused == tunnel.refused,
    decreases steps.len(),
{
    if steps.len() > 0 {
        let shorter = steps.drop_last();
        assert(steps[steps.len() - 1] is Receive);
        assert forall|j: int| 0 <= j < shorter.len() implies #[trigger] shorter[j] is Receive
            && shorter[j]->Receive_0 == source by {
            assert(shorter[j] == steps[j]);
        }
        law_datagrams_in_a_row_announce_their_sender_once(tunnel, source, shorter);
    }
}

/// As many destinations wait, at most, as waited before and datagrams came since;
/// and while these are no more than ten, nobody is refused who was not before.
proof fn lemma_few_are_not_refused(tunnel: TunnelHistory, steps: Seq<TunnelStep>)
    requires
        !tunnel.refused,
        tunnel.state.destinations.len() + receipts(steps) <= 10,
    ensures
        tunnel.after_all(steps).state.destinations.len() <= tunnel.state.destinations.len()
            + receipts(steps),
        !tunnel.after_all(steps).refused,
    decreases steps.len(),
{
    if steps.len() > 0 {
        lemma_few_are_not_refused(tunnel, steps.drop_last());
    }
}

/// A tunnel that receives does so until a step ends that.
proof fn lemma_receives_on(tunnel: TunnelHistory, steps: Seq<TunnelStep>)
    requires
        tunnel.state.receiving,
        !steps.contains(TunnelStep::EndReceiving),
    ensures
        tunnel.after_all(steps).state.receiving,
        tunnel.after_all(steps).state.last == (if last_writer(steps) is Some {
            last_writer(steps)
        } else {
            tunnel.state.last
        }),
    decreases steps.len(),
{
    if steps.len() > 0 {
        lemma_among(steps, TunnelStep::EndReceiving);
        lemma_receives_on(tunnel, steps.drop_last());
    }
}

/// A tunnel keeps what it keeps from any moment on.
proof fn lemma_keeps_on(tunnel: TunnelHistory, steps: Seq<TunnelStep>)
    requires
        tunnel.keeps(),
    ensures
        tunnel.after_all(steps).keeps(),
        tunnel.after_all(steps).preset == tunnel.preset,
    decreases steps.len(),
{
    if steps.len() > 0 {
        lemma_keeps_on(tunnel, steps.drop_last());
        lemma_step(tunnel.after_all(steps.drop_last()), steps.last());
    }
}

/// Of up to nine datagrams, whoever sent them, none finds the destinations full: the
/// answer goes to whoever wrote last, and to the preset destination if nobody did.
pub proof fn law_answers_to_few_datagrams_go_to_the_last_writer(
    preset: Option<SocketAddr>,
    steps: Seq<TunnelStep>,
    data: Seq<u8>,
)
    requires
        !steps.contains(TunnelStep::EndReceiving),
        receipts(steps) <= 9,
    ensures
        ({
            let tunnel = TunnelHistory::started(preset).after_all(steps);
            tunnel.after_stream(data).sent == match last_writer(steps) {
                Some(source) => tunnel.sent.push((data, source)),
                None => match preset {
                    Some(destination) => tunnel.sent.push((data, destination)),
                    None => tunnel.sent,
                },
            }
        }),
{
    lemma_few_are_not_refused(TunnelHistory::started(preset), steps);
    law_answers_go_to_the_last_writer(preset, steps, data);
}

/// Once the destinations were taken, there is room again for a newcomer, that is
/// someone who did not write last, and for up to nine datagrams after theirs, even if
/// someone was refused before: the answer goes to whoever of them wrote last.
pub proof fn law_answers_go_to_the_last_writer_after_taking(
    preset: Option<SocketAddr>,
    before: Seq<TunnelStep>,
    newcomer: SocketAddr,
    datagram: Seq<u8>,
    steps: Seq<TunnelStep>,
    data: Seq<u8>,
)
    requires
        !before.contains(TunnelStep::EndReceiving),
        last_writer(before) != Some(newcomer),
        !steps.contains(TunnelStep::EndReceiving),
        receipts(steps) <= 9,
    ensures
        ({
            let tunnel = TunnelHistory::started(preset).after_all(before).after(
                TunnelStep::TakeDestinations,
            ).after(TunnelStep::Receive(newcomer, datagram)).after_all(steps);
            tunnel.after_stream(data).sent == tunnel.sent.push(
                (
                    data,
                    match last_writer(steps) {
                        Some(source) => source,
                        None => newcomer,
                    },
                ),
            )
        }),
{
    let earlier = TunnelHistory::started(preset).after_all(before);
    let taken = earlier.after(TunnelStep::TakeDestinations);
    let start = taken.after(TunnelStep::Receive(newcomer, datagram));
    lemma_steps(preset, before);
    lemma_step(earlier, TunnelStep::TakeDestinations);
    lemma_step(taken, TunnelStep::Receive(newcomer, datagram));
    law_tasks_run_until_they_end(preset, before);
    law_the_last_writer_is_the_local_peer(preset, before);
    lemma_few_are_not_refused(start, steps);
    lemma_receives_on(start, steps);
    lemma_keeps_on(start, steps);
}

/// After the task that receives datagrams ended, what is read from streams is
/// dropped.
pub proof fn law_nothing_is_sent_after_the_end_of_receiving(
    preset: Option<SocketAddr>,
    steps: Seq<TunnelStep>,
    data: Seq<u8>,
)
    requires
        steps.contains(TunnelStep::EndReceiving),
    ensures
        ({
            let tunnel = TunnelHistory::started(preset).after_all(steps);
            tunnel.after_stream(data).sent == tunnel.sent
        }),
{
    law_tasks_run_until_they_end(preset, steps);
    law_nothing_is_sent_after_receiving_ended(preset, steps, data);
}

/// Datagrams are sent only where a stream was read, one at most for each, with the
/// data of the stream as it is.
pub proof fn law_only_data_of_streams_is_sent(
    tunnel: TunnelHistory,
    data: Seq<u8>,
    other: TunnelStep,
)
    requires
        other !is Read,
    ensures
        tunnel.after(other).sent == tunnel.sent,
        ({
            let next = tunnel.after(TunnelStep::Read(data));
            match tunnel.state.destination {
                Some(destination) => next.sent == tunnel.sent.push((data, destination)),
                None => next.sent == tunnel.sent,
            }
        }),
        tunnel.after(TunnelStep::Read(data)).state == tunnel.state,
{
}

/// Whether `addr` is the preset destination, or someone from whom a datagram came in
/// `steps`.
pub open spec fn heard_of(
    preset: Option<SocketAddr>,
    steps: Seq<TunnelStep>,
    addr: SocketAddr,
) -> bool {
    ||| preset == Some(addr)
    ||| exists|i: int|
        0 <= i < steps.len() && #[trigger] steps[i] is Receive && steps[i]->Receive_0 == addr
}

/// Nothing is sent to anyone but the preset destination and those from whom datagrams
/// came, and nobody else is a destination or announced as one.
pub proof fn law_data_is_sent_only_to_those_heard_of(
    preset: Option<SocketAddr>,
    steps: Seq<TunnelStep>,
)
    ensures
        ({
            let tunnel = TunnelHistory::started(preset).after_all(steps);
            &&& forall|k: int|
                0 <= k < tunnel.sent.len() ==> heard_of(
                    preset,
                    steps,
                    (#[trigger] tunnel.sent[k]).1,
                )
            &&& forall|k: int|
                0 <= k < tunnel.state.destinations.len() ==> heard_of(
                    preset,
                    steps,
                    #[trigger] tunnel.state.destinations[k],
                )
            &&& tunnel.state.destination is Some ==> heard_of(
                preset,
                steps,
                tunnel.state.destination->0,
            )
        }),
    decreases steps.len(),
{
    if steps.len() > 0 {
        let shorter = steps.drop_last();
        law_data_is_sent_only_to_those_heard_of(preset, shorter);
        assert forall|addr: SocketAddr| #[trigger]
            heard_of(preset, shorter, addr) implies heard_of(preset, steps, addr) by {
            if preset != Some(addr) {
                let i = choose|i: int|
                    0 <= i < shorter.len() && #[trigger] shorter[i] is Receive
                        && shorter[i]->Receive_0 == addr;
                assert(steps[i] == shorter[i]);
            }
        }
        let earlier = TunnelHistory::started(preset).after_all(shorter);
        let tunnel = TunnelHistory::started(preset).after_all(steps);
        assert(steps[steps.len() - 1] == steps.last());
        assert forall|k: int| 0 <= k < tunnel.sent.len() implies heard_of(
            preset,
            steps,
            (#[trigger] tunnel.sent[k]).1,
        ) by {
            if k < earlier.sent.len() {
                assert(tunnel.sent[k] == earlier.sent[k]);
            }
        }
        assert forall|k: int| 0 <= k < tunnel.state.destinations.len() implies heard_of(
            preset,
            steps,
            #[trigger] tunnel.state.destinations[k],
        ) by {
            if k < earlier.state.destinations.len() {
                assert(tunnel.state.destinations[k] == earlier.state.destinations[k]);
            }
        }
        if earlier.state.destinations.len() > 0 {
            assert(heard_of(
                preset,
                shorter,
                earlier.state.destinations[earlier.state.destinations.len() - 1],
            ));
        }
    }
}

/// What a tunnel takes in is read off the steps: the data of the datagrams, as they
/// came, until one of the tasks that pass them on ends. What was written to streams,
/// followed by what still waits, is just that.
pub proof fn law_all_that_comes_is_written_or_waits(
    preset: Option<SocketAddr>,
    steps: Seq<TunnelStep>,
)
    ensures
        ({
            let tunnel = TunnelHistory::started(preset).after_all(steps);
            &&& tunnel.received == payloads(steps)
            &&& tunnel.written + tunnel.state.datagrams == payloads(steps)
        }),
    decreases steps.len(),
{
    lemma_steps(preset, steps);
    if steps.len() > 0 {
        law_all_that_comes_is_written_or_waits(preset, steps.drop_last());
        law_tasks_run_until_they_end(preset, steps.drop_last());
        lemma_among(steps, TunnelStep::EndReceiving);
        lemma_among(steps, TunnelStep::EndSending);
    }
}

/// Each time a stream is written, the next datagram goes out, if there is one; and
/// nothing is written at any other time, nor after the task that writes has ended.
pub proof fn law_each_stream_holds_the_next_datagram(
    preset: Option<SocketAddr>,
    steps: Seq<TunnelStep>,
    other: TunnelStep,
)
    requires
        other !is Write,
    ensures
        ({
            let tunnel = TunnelHistory::started(preset).after_all(steps);
            let number = tunnel.written.len() as int;
            &&& number <= payloads(steps).len()
            &&& tunnel.after(TunnelStep::Write).written == (if number < payloads(steps).len()
                && !steps.contains(TunnelStep::EndSending) {
                tunnel.written.push(payloads(steps)[number])
            } else {
                tunnel.written
            })
            &&& tunnel.after(other).written == tunnel.written
        }),
{
    let tunnel = TunnelHistory::started(preset).after_all(steps);
    law_all_that_comes_is_written_or_waits(preset, steps);
    law_tasks_run_until_they_end(preset, steps);
    if tunnel.state.datagrams.len() > 0 {
        assert((tunnel.written + tunnel.state.datagrams)[tunnel.written.len() as int]
            == tunnel.state.datagrams[0]);
    }
}

/// Writing as many streams as `number` writes that many of the waiting datagrams,
/// oldest first.
proof fn lemma_writes(tunnel: TunnelHistory, number: nat)
    requires
        tunnel.state.sending,
        number <= tunnel.state.datagrams.len(),
    ensures
        ({
            let next = tunnel.after_all(Seq::new(number, |i: int| TunnelStep::Write));
            &&& next.state.sending
            &&& next.written == tunnel.written + tunnel.state.datagrams.take(number as int)
            &&& next.state.datagrams == tunnel.state.datagrams.skip(number as int)
        }),
    decreases number,
{
    let steps = Seq::new(number, |i: int| TunnelStep::Write);
    if number == 0 {
        assert(tunnel.written + tunnel.state.datagrams.take(0) =~= tunnel.written);
        assert(tunnel.state.datagrams.skip(0) =~= tunnel.state.datagrams);
    } else {
        let fewer = (number - 1) as nat;
        lemma_writes(tunnel, fewer);
        assert(steps.drop_last() =~= Seq::new(fewer, |i: int| TunnelStep::Write));
        let before = tunnel.after_all(steps.drop_last());
        let next = tunnel.after_all(steps);
        assert(next == before.after(TunnelStep::Write));
        assert(next.written =~= tunnel.written + tunnel.state.datagrams.take(number as int));
        assert(next.state.datagrams =~= tunnel.state.datagrams.skip(number as int));
    }
}

/// As long as the task that writes has not ended, as many streams as datagrams wait
/// are enough to have written all that came, in the order in which it came.
pub proof fn law_all_that_comes_is_written_in_the_end(
    preset: Option<SocketAddr>,
    steps: Seq<TunnelStep>,
)
    requires
        !steps.contains(TunnelStep::EndSending),
    ensures
        ({
            let tunnel = TunnelHistory::started(preset).after_all(steps);
            let writes = Seq::new(
                (payloads(steps).len() - tunnel.written.len()) as nat,
                |i: int| TunnelStep::Write,
            );
            tunnel.after_all(writes).written == payloads(steps)
        }),
{
    let tunnel = TunnelHistory::started(preset).after_all(steps);
    law_all_that_comes_is_written_or_waits(preset, steps);
    law_tasks_run_until_they_end(preset, steps);
    assert(payloads(steps).len() == tunnel.written.len() + tunnel.state.datagrams.len());
    lemma_writes(tunnel, tunnel.state.datagrams.len());
    assert(tunnel.state.datagrams.take(tunnel.state.datagrams.len() as int)
        =~= tunnel.state.datagrams);
}

/// Nobody is refused where nobody but the preset destination writes.
proof fn lemma_only_the_preset_writes(preset: SocketAddr, steps: Seq<TunnelStep>)
    requires
        forall|j: int|
            0 <= j < steps.len() && #[trigger] steps[j] is Receive ==> steps[j]->Receive_0
                == preset,
    ensures
        ({
            let tunnel = TunnelHistory::started(Some(preset)).after_all(steps);
            &&& !tunnel.refused
            &&& tunnel.state.last is None || tunnel.state.last == Some(preset)
            &&& tunnel.state.destinations.len() <= (if tunnel.state.last is None {
                1nat
            } else {
                2nat
            })
        }),
    decreases steps.len(),
{
    if steps.len() > 0 {
        let shorter = steps.drop_last();
        assert forall|j: int| 0 <= j < shorter.len() && #[trigger] shorter[j] is Receive implies
            shorter[j]->Receive_0 == preset by {
            assert(shorter[j] == steps[j]);
        }
        lemma_only_the_preset_writes(preset, shorter);
        assert(steps[steps.len() - 1] == steps.last());
    }
}

/// From the client to the server: whatever datagram came to a client, and was written
/// to a stream, a server sends unchanged to its preset destination, as long as its
/// task that receives runs and nobody else writes on the server's side. Nothing needs
/// to be known of how the destinations were announced.
pub proof fn law_client_datagrams_reach_the_preset_destination(
    client_steps: Seq<TunnelStep>,
    number: int,
    preset: SocketAddr,
    server_steps: Seq<TunnelStep>,
)
    requires
        0 <= number < TunnelHistory::started(None).after_all(client_steps).written.len(),
        !server_steps.contains(TunnelStep::EndReceiving),
        forall|j: int|
            0 <= j < server_steps.len() && #[trigger] server_steps[j] is Receive
                ==> server_steps[j]->Receive_0 == preset,
    ensures
        ({
            let client = TunnelHistory::started(None).after_all(client_steps);
            let server = TunnelHistory::started(Some(preset)).after_all(server_steps);
            server.after_stream(client.written[number]).sent == server.sent.push(
                (payloads(client_steps)[number], preset),
            )
        }),
{
    lemma_only_the_preset_writes(preset, server_steps);
    law_the_last_writer_is_the_local_peer(Some(preset), server_steps);
    law_client_to_server(client_steps, number, preset, server_steps);
}

/// From the client to the server: what a client received, and wrote to a stream,
/// a server sends unchanged to its preset destination, as long as its task that
/// receives runs, nobody else wrote last on the server's side, and there was room for
/// the latest sender that had to be announced. `number` counts the client's
/// datagrams, and the streams that it writes.
pub proof fn law_client_to_server(
    client_steps: Seq<TunnelStep>,
    number: int,
    preset: SocketAddr,
    server_steps: Seq<TunnelStep>,
)
    requires
        0 <= number < TunnelHistory::started(None).after_all(client_steps).written.len(),
        !server_steps.contains(TunnelStep::EndReceiving),
        last_writer(server_steps) is None || last_writer(server_steps) == Some(preset),
        !TunnelHistory::started(Some(preset)).after_all(server_steps).refused,
    ensures
        ({
            let client = TunnelHistory::started(None).after_all(client_steps);
            let server = TunnelHistory::started(Some(preset)).after_all(server_steps);
            server.after_stream(client.written[number]).sent == server.sent.push(
                (client.received[number], preset),
            )
        }),
        TunnelHistory::started(None).after_all(client_steps).received == payloads(client_steps),
{
    lemma_steps(None, client_steps);
    lemma_steps(Some(preset), server_steps);
    law_all_that_comes_is_written_or_waits(None, client_steps);
    law_tasks_run_until_they_end(Some(preset), server_steps);
    law_the_last_writer_is_the_local_peer(Some(preset), server_steps);
    let client = TunnelHistory::started(None).after_all(client_steps);
    assert((client.written + client.state.datagrams)[number] == client.written[number]);
}

/// From the server to the client: what a server received, and wrote to a stream,
/// a client sends unchanged to whoever wrote to it last, if someone did and there
/// was room for the latest sender that had to be announced.
pub proof fn law_server_to_client(
    preset: SocketAddr,
    server_steps: Seq<TunnelStep>,
    number: int,
    client_steps: Seq<TunnelStep>,
)
    requires
        0 <= number < TunnelHistory::started(Some(preset)).after_all(server_steps).written.len(),
        !client_steps.contains(TunnelStep::EndReceiving),
        last_writer(client_steps) is Some,
        !TunnelHistory::started(None).after_all(client_steps).refused,
    ensures
        ({
            let server = TunnelHistory::started(Some(preset)).after_all(server_steps);
            let client = TunnelHistory::started(None).after_all(client_steps);
            client.after_stream(server.written[number]).sent == client.sent.push(
                (server.received[number], last_writer(client_steps)->0),
            )
        }),
        TunnelHistory::started(None).after_all(client_steps).state.last == last_writer(
            client_steps,
        ),
        TunnelHistory::started(Some(preset)).after_all(server_steps).received == payloads(
            server_steps,
        ),
{
    lemma_steps(Some(preset), server_steps);
    lemma_steps(None, client_steps);
    law_all_that_comes_is_written_or_waits(Some(preset), server_steps);
    law_tasks_run_until_they_end(None, client_steps);
    law_the_last_writer_is_the_local_peer(None, client_steps);
    let server = TunnelHistory::started(Some(preset)).after_all(server_steps);
    assert((server.written + server.state.datagrams)[number] == server.written[number]);
}

} // verus!
