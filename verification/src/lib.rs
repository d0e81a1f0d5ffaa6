//! A UDP tunnel over QUIC: what a client and a server of it decide.
//!
//! A server forwards the datagrams of a peer to one local address; a client
//! takes datagrams on a local address, hands them to the server, and sends the
//! answers back to whoever wrote last. Each side has a self-signed certificate,
//! and each side's user confirms the other side's certificate by comparing a
//! few words that stand for its hash.
//!
//! The library holds everything that is decided or computed. Sockets, tasks,
//! the terminal and the QUIC endpoint belong to the program around it.
use vstd::prelude::*;

pub mod session;
pub mod tunnel;

verus! {

/// What a client and a server are told alike.
#[derive(Clone, Copy, Debug)]
pub struct CommonArgs {
    /// If set, automatically trust the certificate of the peer. You still need to
    /// cross-check certificate words to detect active attacks.
    pub trust: bool,
}

} // verus!
