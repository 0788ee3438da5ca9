//! Connection state, which decides how a received packet identifier is read.

use crate::minecraft::packet::PacketType;
use vstd::prelude::*;

verus! {

/// Failures of the state machine.
#[derive(Debug, PartialEq, Eq, Clone, Copy, Structural)]
pub enum Error {
    /// The transition out of the given state has already been made.
    AlreadyDone(State),
    InvalidPacketId,
}

/// Phase of one connection. It starts at `HandShaking` and moves to
/// `HandShakeDone` once, when the handshake has been written.
#[derive(Debug, PartialEq, Eq, Clone, Copy, Structural)]
pub enum State {
    HandShaking,
    HandShakeDone,
}

impl State {
    /// The packet type that identifier `id` stands for in this state.
    pub open spec fn packet_type_of(self, id: i32) -> Result<PacketType, Error> {
        if id == 0 {
            match self {
                State::HandShaking => Ok(PacketType::HandShake),
                State::HandShakeDone => Ok(PacketType::List),
            }
        } else if id == 1 {
            Ok(PacketType::PingPong)
        } else {
            Err(Error::InvalidPacketId)
        }
    }

    /// Resolves a received packet identifier: 0 is the handshake while
    /// handshaking and the status response afterwards, 1 is ping-pong in
    /// either state, and every other identifier is refused.
    pub fn detect_packet_type(&self, id: i32) -> (r: Result<PacketType, Error>)
        ensures
            r == self.packet_type_of(id),
    {
        match id {
            0 => match *self {
                State::HandShaking => Ok(PacketType::HandShake),
                State::HandShakeDone => Ok(PacketType::List),
            },
            1 => Ok(PacketType::PingPong),
            _ => Err(Error::InvalidPacketId),
        }
    }
}

} // verus!
