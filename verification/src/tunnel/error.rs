//! What can go wrong with a tunnel besides input and output.
use vstd::prelude::*;

verus! {

/// What is said of a queue whose other end is gone.
pub const CHANNEL_CLOSED: &'static str = "channel closed";

/// What can go wrong with a tunnel besides input and output.
#[derive(Debug)]
pub enum TunnelError {
    /// No key or no certificate could be made.
    KeyGeneration(rcgen::Error),
    /// The task at the other end of the queue for datagrams is gone.
    ChannelClosed,
}

impl TunnelError {
    /// What is said of the error, unless the crate that it comes from says it.
    pub fn message(&self) -> (text: Option<String>)
        ensures
            match text {
                Some(text) => *self is ChannelClosed && text@ == CHANNEL_CLOSED@,
                None => *self is KeyGeneration,
            },
            *self is ChannelClosed ==> text is Some && text->0@ == "channel closed"@,
    {
        match self {
            TunnelError::KeyGeneration(_) => None,
            TunnelError::ChannelClosed => Some(CHANNEL_CLOSED.to_owned()),
        }
    }
}

} // verus!
