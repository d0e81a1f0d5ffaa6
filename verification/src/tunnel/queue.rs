//! The two queues of a tunnel. Both are channels of tokio, of which both ends
//! are held in one place.
use crate::tunnel::address::SocketAddr;
use tokio::sync::mpsc::{Receiver, Sender, UnboundedReceiver, UnboundedSender};
use vstd::prelude::*;

verus! {

/// How many destinations can be announced and not yet taken.
pub const DESTINATION_QUEUE: usize = 10;

/// The sending end of a bounded channel.
#[verifier::external_type_specification]
#[verifier::external_body]
#[verifier::reject_recursive_types(T)]
pub struct ExSender<T>(tokio::sync::mpsc::Sender<T>);

/// The receiving end of a bounded channel.
#[verifier::external_type_specification]
#[verifier::external_body]
#[verifier::reject_recursive_types(T)]
pub struct ExReceiver<T>(tokio::sync::mpsc::Receiver<T>);

/// The sending end of an unbounded channel.
#[verifier::external_type_specification]
#[verifier::external_body]
#[verifier::reject_recursive_types(T)]
pub struct ExUnboundedSender<T>(tokio::sync::mpsc::UnboundedSender<T>);

/// The receiving end of an unbounded channel.
#[verifier::external_type_specification]
#[verifier::external_body]
#[verifier::reject_recursive_types(T)]
pub struct ExUnboundedReceiver<T>(tokio::sync::mpsc::UnboundedReceiver<T>);

/// Whether these are the two ends of one channel, the only ones, and it is open.
pub uninterp spec fn ends_of_bounded(
    sender: Sender<SocketAddr>,
    receiver: Receiver<SocketAddr>,
) -> bool;

/// How many destinations the channel has room for.
pub uninterp spec fn bounded_limit(sender: Sender<SocketAddr>) -> nat;

/// The destinations in the channel with these ends, oldest first.
pub uninterp spec fn in_bounded(
    sender: Sender<SocketAddr>,
    receiver: Receiver<SocketAddr>,
) -> Seq<SocketAddr>;

/// Whether these are the two ends of one channel, the only ones, and it is open.
pub uninterp spec fn ends_of_unbounded(
    sender: UnboundedSender<Vec<u8>>,
    receiver: UnboundedReceiver<Vec<u8>>,
) -> bool;

/// The datagrams in the channel with these ends, oldest first.
pub uninterp spec fn in_unbounded(
    sender: UnboundedSender<Vec<u8>>,
    receiver: UnboundedReceiver<Vec<u8>>,
) -> Seq<Seq<u8>>;

/// Announced destinations that nobody has taken yet.
#[derive(Debug)]
pub struct DestinationQueue {
    sender: Sender<SocketAddr>,
    receiver: Receiver<SocketAddr>,
}

impl View for DestinationQueue {
    type V = Seq<SocketAddr>;

    /// The destinations in the queue, oldest first.
    closed spec fn view(&self) -> Seq<SocketAddr> {
        in_bounded(self.sender, self.receiver)
    }
}

impl DestinationQueue {
    /// Whether both ends of the queue are those of one channel, which has room
    /// for [`DESTINATION_QUEUE`] destinations and holds no more.
    pub closed spec fn wf(&self) -> bool {
        &&& ends_of_bounded(self.sender, self.receiver)
        &&& bounded_limit(self.sender) == DESTINATION_QUEUE
        &&& in_bounded(self.sender, self.receiver).len() <= DESTINATION_QUEUE
    }

    /// Calls `tokio::sync::mpsc::channel`.
    ///
    /// Claimed of it: the two ends belong together, the channel is empty, and it
    /// has room for `buffer` messages. It panics if `buffer` is zero or larger
    /// than `Semaphore::MAX_PERMITS`, which is `usize::MAX >> 3`.
    #[verifier::external_body]
    fn channel(buffer: usize) -> (ends: (Sender<SocketAddr>, Receiver<SocketAddr>))
        requires
            0 < buffer <= usize::MAX / 8,
        ensures
            ends_of_bounded(ends.0, ends.1),
            bounded_limit(ends.0) == buffer,
            in_bounded(ends.0, ends.1) == Seq::<SocketAddr>::empty(),
    {
        tokio::sync::mpsc::channel(buffer)
    }

    /// An empty queue.
    pub fn new() -> (queue: DestinationQueue)
        ensures
            queue.wf(),
            queue@ == Seq::<SocketAddr>::empty(),
    {
        let (sender, receiver) = DestinationQueue::channel(DESTINATION_QUEUE);
        DestinationQueue { sender, receiver }
    }

    /// Calls `tokio::sync::mpsc::Sender::try_send`.
    ///
    /// Claimed of it, where both ends are held here: a message is put behind all
    /// others if there is room for it, and is refused otherwise; it does not
    /// wait.
    #[verifier::external_body]
    pub(crate) fn try_send(&mut self, destination: SocketAddr) -> (accepted: bool)
        requires
            old(self).wf(),
        ensures
            final(self).wf(),
            accepted == (old(self)@.len() < DESTINATION_QUEUE),
            final(self)@ == (if accepted {
                old(self)@.push(destination)
            } else {
                old(self)@
            }),
    {
        self.sender.try_send(destination).is_ok()
    }

    /// Calls `tokio::sync::mpsc::Receiver::try_recv`.
    ///
    /// Claimed of it, where both ends are held here: it takes the oldest message
    /// out of the channel, or gives an error if there is none; it does not wait.
    #[verifier::external_body]
    pub(crate) fn try_recv(&mut self) -> (taken: Option<SocketAddr>)
        requires
            old(self).wf(),
        ensures
            final(self).wf(),
            match taken {
                Some(destination) => {
                    &&& old(self)@.len() > 0
                    &&& destination == old(self)@.first()
                    &&& final(self)@ == old(self)@.drop_first()
                },
                None => old(self)@.len() == 0 && final(self)@ == old(self)@,
            },
    {
        self.receiver.try_recv().ok()
    }
}

/// Received datagrams that nobody has written to a stream yet.
#[derive(Debug)]
pub struct DatagramQueue {
    sender: UnboundedSender<Vec<u8>>,
    receiver: UnboundedReceiver<Vec<u8>>,
}

impl View for DatagramQueue {
    type V = Seq<Seq<u8>>;

    /// The datagrams in the queue, oldest first.
    closed spec fn view(&self) -> Seq<Seq<u8>> {
        in_unbounded(self.sender, self.receiver)
    }
}

impl DatagramQueue {
    /// Whether both ends of the queue are those of one channel.
    pub closed spec fn wf(&self) -> bool {
        ends_of_unbounded(self.sender, self.receiver)
    }

    /// Calls `tokio::sync::mpsc::unbounded_channel`.
    ///
    /// Claimed of it: the two ends belong together, and the channel is empty.
    #[verifier::external_body]
    fn unbounded_channel() -> (ends: (UnboundedSender<Vec<u8>>, UnboundedReceiver<Vec<u8>>))
        ensures
            ends_of_unbounded(ends.0, ends.1),
            in_unbounded(ends.0, ends.1) == Seq::<Seq<u8>>::empty(),
    {
        tokio::sync::mpsc::unbounded_channel()
    }

    /// An empty queue.
    pub fn new() -> (queue: DatagramQueue)
        ensures
            queue.wf(),
            queue@ == Seq::<Seq<u8>>::empty(),
    {
        let (sender, receiver) = DatagramQueue::unbounded_channel();
        DatagramQueue { sender, receiver }
    }

    /// Calls `tokio::sync::mpsc::UnboundedSender::send`.
    ///
    /// Claimed of it, where both ends are held here: the message is put behind
    /// all others, and is never refused. With `usize::MAX / 2` messages in the
    /// channel it aborts the process.
    #[verifier::external_body]
    pub(crate) fn send(&mut self, data: Vec<u8>) -> (accepted: bool)
        requires
            old(self).wf(),
            old(self)@.len() < usize::MAX / 2,
        ensures
            accepted,
            final(self).wf(),
            final(self)@ == old(self)@.push(data@),
    {
        self.sender.send(data).is_ok()
    }

    /// Calls `tokio::sync::mpsc::UnboundedReceiver::try_recv`.
    ///
    /// Claimed of it, where both ends are held here: it takes the oldest message
    /// out of the channel, or gives an error if there is none; it does not wait.
    #[verifier::external_body]
    pub(crate) fn try_recv(&mut self) -> (taken: Option<Vec<u8>>)
        requires
            old(self).wf(),
        ensures
            final(self).wf(),
            match taken {
                Some(data) => {
                    &&& old(self)@.len() > 0
                    &&& data@ == old(self)@.first()
                    &&& final(self)@ == old(self)@.drop_first()
                },
                None => old(self)@.len() == 0 && final(self)@ == old(self)@,
            },
    {
        self.receiver.try_recv().ok()
    }
}

} // verus!
