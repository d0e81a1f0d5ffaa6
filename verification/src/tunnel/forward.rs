//! What runs between the two ends of a tunnel.
//!
//! A tunnel is three tasks. One receives datagrams on the local socket, puts
//! them into a queue, and announces each new sender in a queue of destinations.
//! One takes datagrams out of the first queue and writes each to a QUIC stream
//! of its own. One takes destinations out of the second queue, and sends what
//! arrives on a QUIC stream to the destination that it took last.
//!
//! The tasks wait for sockets and streams, and for each other, in the program
//! around the library. What they share, and what each does with that which it
//! waited for, is here.
use crate::tunnel::address::SocketAddr;
use crate::tunnel::error::TunnelError;
use crate::tunnel::queue::{DatagramQueue, DestinationQueue, DESTINATION_QUEUE};
use vstd::prelude::*;

verus! {

/// The most bytes of a datagram that a tunnel takes in, and the most that it
/// reads from a stream.
pub const BUF_SIZE: usize = 1500;

/// A datagram to send from the local socket.
#[derive(Debug)]
pub struct Delivery {
    pub data: Vec<u8>,
    pub destination: SocketAddr,
}

impl View for Delivery {
    type V = (Seq<u8>, SocketAddr);

    open spec fn view(&self) -> (Seq<u8>, SocketAddr) {
        (self.data@, self.destination)
    }
}

/// What the tasks of a tunnel share, at one moment.
pub struct TunnelState {
    /// The sender of the datagram received last.
    pub last: Option<SocketAddr>,
    /// The destinations that were announced and not yet taken, oldest first.
    pub destinations: Seq<SocketAddr>,
    /// The datagrams that were received and not yet written, oldest first.
    pub datagrams: Seq<Seq<u8>>,
    /// Where the data of streams is sent, if that is known.
    pub destination: Option<SocketAddr>,
    /// Whether the task that receives datagrams still runs.
    pub receiving: bool,
    /// Whether the task that writes streams still runs.
    pub sending: bool,
}

impl TunnelState {
    /// The state of a tunnel that was just started: its preset destination is
    /// announced, and it has received nothing yet.
    pub open spec fn started(preset: Option<SocketAddr>) -> TunnelState {
        TunnelState {
            last: None,
            destinations: match preset {
                Some(destination) => seq![destination],
                None => Seq::empty(),
            },
            datagrams: Seq::empty(),
            destination: None,
            receiving: true,
            sending: true,
        }
    }

    /// Whether a datagram from `source` has to be announced: the one before it
    /// came from someone else, or there was none.
    pub open spec fn announces(self, source: SocketAddr) -> bool {
        self.last != Some(source)
    }

    /// Whether another destination can be announced.
    pub open spec fn has_room(self) -> bool {
        self.destinations.len() < DESTINATION_QUEUE
    }

    /// The state after a datagram from `source` was received. Its sender is
    /// announced if it has to be and there is room; its data waits to be written,
    /// unless nobody writes any more.
    pub open spec fn received(self, source: SocketAddr, data: Seq<u8>) -> TunnelState {
        TunnelState {
            last: Some(source),
            destinations: if self.announces(source) && self.has_room() {
                self.destinations.push(source)
            } else {
                self.destinations
            },
            datagrams: if self.sending {
                self.datagrams.push(data)
            } else {
                self.datagrams
            },
            ..self
        }
    }

    /// The state after the oldest datagram was taken, if there was one.
    pub open spec fn written(self) -> TunnelState {
        TunnelState {
            datagrams: if self.datagrams.len() > 0 {
                self.datagrams.drop_first()
            } else {
                self.datagrams
            },
            ..self
        }
    }

    /// The state after all announced destinations were taken, one after the
    /// other. The last one stays; but if nobody receives datagrams any more, none
    /// does.
    pub open spec fn destinations_taken(self) -> TunnelState {
        TunnelState {
            destinations: Seq::empty(),
            destination: if !self.receiving {
                None
            } else if self.destinations.len() > 0 {
                Some(self.destinations.last())
            } else {
                self.destination
            },
            ..self
        }
    }

    /// What is sent when a stream was read and holds `data`: the data, if the
    /// destination is known.
    pub open spec fn delivery(self, data: Seq<u8>) -> Option<(Seq<u8>, SocketAddr)> {
        match self.destination {
            Some(to) => Some((data, to)),
            None => None,
        }
    }
}

/// A tunnel whose tasks run: what they share.
#[derive(Debug)]
pub struct RunningTunnel {
    last_destination: Option<SocketAddr>,
    destinations: DestinationQueue,
    datagrams: DatagramQueue,
    /// How many datagrams are in their queue.
    waiting: usize,
    destination: Option<SocketAddr>,
    receiving: bool,
    sending: bool,
}

impl View for RunningTunnel {
    type V = TunnelState;

    closed spec fn view(&self) -> TunnelState {
        TunnelState {
            last: self.last_destination,
            destinations: self.destinations@,
            datagrams: self.datagrams@,
            destination: self.destination,
            receiving: self.receiving,
            sending: self.sending,
        }
    }
}

impl RunningTunnel {
    /// Whether the queues are in order, and the datagrams counted.
    pub closed spec fn wf(&self) -> bool {
        &&& self.destinations.wf()
        &&& self.datagrams.wf()
        &&& self.waiting == self.datagrams@.len()
    }

    /// How many datagrams wait to be written.
    pub fn waiting(&self) -> (number: usize)
        requires
            self.wf(),
        ensures
            number == self@.datagrams.len(),
    {
        self.waiting
    }

    /// A datagram `data` came from `source`. Its sender is announced unless the
    /// datagram before it came from the same one; it is no failure if there is no
    /// room for that. Its data then waits to be written as it is. This fails only
    /// if nobody writes any more.
    pub fn on_datagram(&mut self, source: SocketAddr, data: Vec<u8>) -> (result: Result<
        (),
        TunnelError,
    >)
        requires
            old(self).wf(),
            old(self)@.datagrams.len() < usize::MAX / 2,
        ensures
            final(self).wf(),
            final(self)@ == old(self)@.received(source, data@),
            final(self)@.last == Some(source),
            final(self)@.destinations == (if old(self)@.last != Some(source)
                && old(self)@.destinations.len() < 10 {
                old(self)@.destinations.push(source)
            } else {
                old(self)@.destinations
            }),
            final(self)@.datagrams == (if old(self)@.sending {
                old(self)@.datagrams.push(data@)
            } else {
                old(self)@.datagrams
            }),
            final(self)@.destination == old(self)@.destination,
            final(self)@.receiving == old(self)@.receiving,
            final(self)@.sending == old(self)@.sending,
            result == (if old(self)@.sending {
                Ok(())
            } else {
                Err(TunnelError::ChannelClosed)
            }),
    {
        let known = match self.last_destination {
            Some(last) => last == source,
            None => false,
        };
        if !known {
            self.last_destination = Some(source);
            self.destinations.try_send(source);
        }
        if !self.sending {
            return Err(TunnelError::ChannelClosed);
        }
        self.datagrams.send(data);
        self.waiting += 1;
        Ok(())
    }

    /// The next datagram to write to a stream, as it was received, or nothing if
    /// there is none yet. This fails if none will ever follow.
    pub fn next_datagram(&mut self) -> (result: Result<Option<Vec<u8>>, TunnelError>)
        requires
            old(self).wf(),
        ensures
            final(self).wf(),
            final(self)@ == old(self)@.written(),
            final(self)@ == (TunnelState { datagrams: final(self)@.datagrams, ..old(self)@ }),
            old(self)@.datagrams == match result {
                Ok(Some(data)) => seq![data@] + final(self)@.datagrams,
                _ => final(self)@.datagrams,
            },
            match result {
                Ok(Some(data)) => old(self)@.datagrams.len() > 0 && data@
                    == old(self)@.datagrams.first(),
                Ok(None) => old(self)@.datagrams.len() == 0 && old(self)@.receiving,
                Err(e) => {
                    &&& old(self)@.datagrams.len() == 0
                    &&& !old(self)@.receiving
                    &&& e is ChannelClosed
                },
            },
    {
        match self.datagrams.try_recv() {
            Some(data) => {
                self.waiting -= 1;
                Ok(Some(data))
            },
            None => if self.receiving {
                Ok(None)
            } else {
                Err(TunnelError::ChannelClosed)
            },
        }
    }

    /// Takes all announced destinations, oldest first: from now on data is sent
    /// to the last of them. If nobody receives datagrams any more, it is sent
    /// nowhere.
    pub fn take_destinations(&mut self)
        requires
            old(self).wf(),
        ensures
            final(self).wf(),
            final(self)@ == old(self)@.destinations_taken(),
            final(self)@.destinations.len() == 0,
            !old(self)@.receiving ==> final(self)@.destination is None,
            old(self)@.receiving && old(self)@.destinations.len() > 0
                ==> final(self)@.destination == Some(
                old(self)@.destinations[old(self)@.destinations.len() - 1],
            ),
            old(self)@.receiving && old(self)@.destinations.len() == 0
                ==> final(self)@.destination == old(self)@.destination,
            final(self)@.last == old(self)@.last,
            final(self)@.datagrams == old(self)@.datagrams,
            final(self)@.receiving == old(self)@.receiving,
            final(self)@.sending == old(self)@.sending,
    {
        let ghost before = self@;
        let mut more = true;
        while more
            invariant
                self.wf(),
                more || self@.destinations.len() == 0,
                self@ == (TunnelState {
                    destinations: self@.destinations,
                    destination: self@.destination,
                    ..before
                }),
                self@.destinations.len() <= before.destinations.len(),
                self@.destinations == before.destinations.skip(
                    before.destinations.len() - self@.destinations.len(),
                ),
                self@.destination == (if self@.destinations.len() < before.destinations.len() {
                    Some(
                        before.destinations[before.destinations.len() - self@.destinations.len()
                            - 1],
                    )
                } else {
                    before.destination
                }),
            decreases self@.destinations.len(), (if more { 1int } else { 0int }),
        {
            match self.destinations.try_recv() {
                Some(destination) => {
                    self.destination = Some(destination);
                },
                None => {
                    more = false;
                },
            }
        }
        if !self.receiving {
            self.destination = None;
        }
        assert(self@.destinations =~= Seq::empty());
    }

    /// A stream was read and holds `data`. It is sent to the destination that was
    /// taken last; while none is known, it is dropped.
    pub fn on_stream(&self, data: Vec<u8>) -> (send: Option<Delivery>)
        ensures
            match send {
                Some(sent) => self@.delivery(data@) == Some(sent@),
                None => self@.delivery(data@) is None,
            },
            match send {
                Some(sent) => sent.data@ == data@ && self@.destination == Some(sent.destination),
                None => self@.destination is None,
            },
    {
        match self.destination {
            Some(destination) => Some(Delivery { data, destination }),
            None => None,
        }
    }

    /// The task that receives datagrams came to its end.
    pub fn receiving_ended(&mut self)
        requires
            old(self).wf(),
        ensures
            final(self).wf(),
            final(self)@ == (TunnelState { receiving: false, ..old(self)@ }),
    {
        self.receiving = false;
    }

    /// The task that writes streams came to its end.
    pub fn sending_ended(&mut self)
        requires
            old(self).wf(),
        ensures
            final(self).wf(),
            final(self)@ == (TunnelState { sending: false, ..old(self)@ }),
    {
        self.sending = false;
    }
}

/// How a task came to its end; `E` says what failed.
#[derive(Debug)]
pub enum TaskEnd<E> {
    /// The task returned without an error.
    Returned,
    /// The task returned an error.
    Failed(E),
    /// The task was torn down before it returned.
    Lost(E),
}

/// What ends a tunnel.
#[derive(Debug)]
pub enum TunnelEvent<E> {
    UdpReceive(TaskEnd<E>),
    QuicSend(TaskEnd<E>),
    QuicReceive(TaskEnd<E>),
    /// The end of the tunnel that it belongs to is being shut down.
    Shutdown,
}

/// How a tunnel ends.
#[derive(Debug)]
pub struct TunnelExit<E> {
    /// Whether the tasks that still run are aborted.
    pub abort_tasks: bool,
    /// What the tunnel returns.
    pub result: Result<(), E>,
}

/// What a tunnel returns when one of its tasks has come to its end.
pub open spec fn task_result<E>(end: TaskEnd<E>) -> Result<(), E> {
    match end {
        TaskEnd::Returned => Ok(()),
        TaskEnd::Failed(e) => Err(e),
        TaskEnd::Lost(e) => Err(e),
    }
}

/// What a tunnel returns after `event`.
pub open spec fn tunnel_result<E>(event: TunnelEvent<E>) -> Result<(), E> {
    match event {
        TunnelEvent::UdpReceive(end) => task_result(end),
        TunnelEvent::QuicSend(end) => task_result(end),
        TunnelEvent::QuicReceive(end) => task_result(end),
        TunnelEvent::Shutdown => Ok(()),
    }
}

fn end_of_task<E>(end: TaskEnd<E>) -> (result: Result<(), E>)
    ensures
        result == task_result(end),
{
    match end {
        TaskEnd::Returned => Ok(()),
        TaskEnd::Failed(e) => Err(e),
        TaskEnd::Lost(e) => Err(e),
    }
}

/// Whether `event` is that a task returned without an error.
pub open spec fn task_returned<E>(event: TunnelEvent<E>) -> bool {
    match event {
        TunnelEvent::UdpReceive(end) => end is Returned,
        TunnelEvent::QuicSend(end) => end is Returned,
        TunnelEvent::QuicReceive(end) => end is Returned,
        TunnelEvent::Shutdown => false,
    }
}

/// Tasks end only by an error, and then only a shutdown lets a tunnel end without
/// one.
pub proof fn law_only_a_shutdown_ends_well<E>(event: TunnelEvent<E>)
    requires
        !task_returned(event),
    ensures
        tunnel_result(event) is Ok <==> event is Shutdown,
{
}

/// A tunnel ends with the error of the task that ended it, whichever of the three
/// that was, and whether it returned the error or was torn down by it. Nothing else
/// makes a tunnel end with an error.
pub proof fn law_tunnels_end_with_the_error_of_their_task<E>(event: TunnelEvent<E>, e: E)
    ensures
        tunnel_result(event) == Err::<(), E>(e) <==> {
            ||| event == TunnelEvent::UdpReceive(TaskEnd::Failed(e))
            ||| event == TunnelEvent::UdpReceive(TaskEnd::Lost(e))
            ||| event == TunnelEvent::QuicSend(TaskEnd::Failed(e))
            ||| event == TunnelEvent::QuicSend(TaskEnd::Lost(e))
            ||| event == TunnelEvent::QuicReceive(TaskEnd::Failed(e))
            ||| event == TunnelEvent::QuicReceive(TaskEnd::Lost(e))
        },
{
}

/// A tunnel over one connection.
#[derive(Debug)]
pub struct UdpTunnel {
    /// Where to send what arrives, until a datagram is received.
    pub preset_udp_destination: Option<SocketAddr>,
}

impl UdpTunnel {
    /// Starts the tunnel: its preset destination is the first that is announced,
    /// and its tasks have received nothing yet.
    pub fn run(self) -> (tunnel: RunningTunnel)
        ensures
            tunnel.wf(),
            tunnel@ == TunnelState::started(self.preset_udp_destination),
            tunnel@.destinations == match self.preset_udp_destination {
                Some(destination) => seq![destination],
                None => Seq::empty(),
            },
            tunnel@.last is None,
            tunnel@.destination is None,
            tunnel@.datagrams.len() == 0,
            tunnel@.receiving,
            tunnel@.sending,
    {
        let mut destinations = DestinationQueue::new();
        if let Some(initial_destination) = self.preset_udp_destination {
            let accepted = destinations.try_send(initial_destination);
            assert(accepted);
            assert(destinations@ =~= seq![initial_destination]);
        }
        RunningTunnel {
            last_destination: None,
            destinations,
            datagrams: DatagramQueue::new(),
            waiting: 0,
            destination: None,
            receiving: true,
            sending: true,
        }
    }

    /// How the tunnel ends on the first `event`: with what the task that ended
    /// reports, or, where it is shut down, without an error and with its tasks
    /// aborted.
    pub fn finish<E>(event: TunnelEvent<E>) -> (exit: TunnelExit<E>)
        ensures
            exit.abort_tasks == (event is Shutdown),
            exit.result == tunnel_result(event),
            match event {
                TunnelEvent::UdpReceive(TaskEnd::Failed(e)) => exit.result == Err::<(), E>(e),
                TunnelEvent::UdpReceive(TaskEnd::Lost(e)) => exit.result == Err::<(), E>(e),
                TunnelEvent::QuicSend(TaskEnd::Failed(e)) => exit.result == Err::<(), E>(e),
                TunnelEvent::QuicSend(TaskEnd::Lost(e)) => exit.result == Err::<(), E>(e),
                TunnelEvent::QuicReceive(TaskEnd::Failed(e)) => exit.result == Err::<(), E>(e),
                TunnelEvent::QuicReceive(TaskEnd::Lost(e)) => exit.result == Err::<(), E>(e),
                _ => exit.result is Ok,
            },
    {
        match event {
            TunnelEvent::UdpReceive(end) => TunnelExit {
                abort_tasks: false,
                result: end_of_task(end),
            },
            TunnelEvent::QuicSend(end) => TunnelExit {
                abort_tasks: false,
                result: end_of_task(end),
            },
            TunnelEvent::QuicReceive(end) => TunnelExit {
                abort_tasks: false,
                result: end_of_task(end),
            },
            TunnelEvent::Shutdown => TunnelExit { abort_tasks: true, result: Ok(()) },
        }
    }
}

} // verus!
