//! Errors of the protocol client.
use vstd::prelude::*;

verus! {

/// What can go wrong in a session.
#[derive(Debug, Clone, Copy, PartialEq, Eq, Structural)]
pub enum ZkError {
    /// An outer frame whose magic words are not `0x5050 0x7D82`.
    BadMagic,
    /// A packet shorter than its header.
    ShortPacket,
    /// The device answered the connect request with this unexpected command.
    HandshakeFailed(u16),
    /// The device refused the authentication key; its answer is given.
    AuthRejected(u16),
    /// A prepare-data answer without its 4-byte size.
    MissingSize,
    /// A chunk request answered with this unexpected command.
    UnexpectedCommand(u16),
    /// A transfer announcing this many bytes, at or over the limit, refused.
    TooLarge(u32),
}

} // verus!
