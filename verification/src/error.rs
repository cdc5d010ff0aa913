//! The ways in which the server can break the protocol.

use vstd::prelude::*;

verus! {

/// An inbound record that breaks an ordering or referential rule of the protocol.
///
/// Every violation is fatal: client and server no longer agree on the state of the game, and
/// the session is to be ended.
#[derive(Clone, Copy, Debug, PartialEq, Eq, Structural)]
pub enum ProtocolViolation {
    /// A snake was announced under an identifier beyond the next expected one, so an
    /// announcement in between was missed.
    UnexpectedSnakeId { received: u32, expected: u64 },
    /// A snake was announced after all the snakes that the server declared had been spawned.
    TooManySnakes,
    /// A record names a snake that was never spawned.
    UnknownSnake { id: u32 },
}

} // verus!
