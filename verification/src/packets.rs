//! The packets that the client exchanges with the server, as typed values.

use vstd::prelude::*;
use crate::components::{Color, Direction, Position};

verus! {

/// The server's answer to a request for a new game.
#[derive(Clone, Copy, Debug, PartialEq, Eq, Structural)]
pub struct StartNewGameAck {
    /// How many snakes the server is going to spawn.
    pub num_snakes: u32,
    /// The identifier of the snake that this client steers.
    pub client_id: u32,
}

/// The announcement of a new snake.
#[derive(Clone, Copy, Debug, PartialEq, Eq, Structural)]
pub struct SpawnSnake {
    pub id: u32,
    pub position: Position,
    pub color: Color,
}

/// The authoritative state of one snake.
#[derive(Clone, Debug, PartialEq, Eq)]
pub struct SnakeOrientation {
    pub id: u32,
    pub position: Position,
    pub input_direction: Direction,
    pub direction: Direction,
    /// Where the segments of the tail are, in the order in which the tail grew.
    pub tail_positions: Vec<Position>,
}

/// A snapshot of the snakes' states.
#[derive(Clone, Debug, PartialEq, Eq)]
pub struct SnakePositions {
    pub positions: Vec<SnakeOrientation>,
}

/// The announcement of a new tail segment.
#[derive(Clone, Copy, Debug, PartialEq, Eq, Structural)]
pub struct SpawnTail {
    pub id: u32,
    pub position: Position,
}

/// Tells the server that every declared snake has been spawned locally.
#[derive(Clone, Copy, Debug, PartialEq, Eq, Structural)]
pub struct Ready;

/// Asks the server to turn a snake.
#[derive(Clone, Copy, Debug, PartialEq, Eq, Structural)]
pub struct SnakeMovement {
    pub id: u32,
    pub direction: Direction,
}

} // verus!
