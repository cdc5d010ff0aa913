//! Plain game data shared by every reconciliation routine.

use vstd::prelude::*;

verus! {

/// One of the four cardinal directions a snake can travel in.
#[derive(Clone, Copy, Debug, PartialEq, Eq, Structural)]
pub enum Direction {
    Left,
    Up,
    Right,
    Down,
}

impl Direction {
    /// The direction pointing the other way: left and right are opposites, and so are up and
    /// down.
    pub open spec fn spec_opposite(self) -> Direction {
        match self {
            Direction::Left => Direction::Right,
            Direction::Right => Direction::Left,
            Direction::Up => Direction::Down,
            Direction::Down => Direction::Up,
        }
    }

    /// Returns the direction pointing the other way.
    #[verifier::when_used_as_spec(spec_opposite)]
    pub fn opposite(self) -> (r: Direction)
        ensures
            r == self.spec_opposite(),
    {
        match self {
            Direction::Left => Direction::Right,
            Direction::Right => Direction::Left,
            Direction::Up => Direction::Down,
            Direction::Down => Direction::Up,
        }
    }
}

/// A cell of the playing field.
#[derive(Clone, Copy, Debug, PartialEq, Eq, Structural)]
pub struct Position {
    pub x: i32,
    pub y: i32,
}

/// A render color, held as the bit patterns of its three normalized components.
///
/// The synchronization logic only ever copies a color, so the components are kept exactly as
/// they arrived, bit for bit.
#[derive(Clone, Copy, Debug, PartialEq, Eq, Structural)]
pub struct Color {
    pub red: u32,
    pub green: u32,
    pub blue: u32,
}

/// One segment of a snake's tail.
#[derive(Clone, Copy, Debug, PartialEq, Eq, Structural)]
pub struct TailSegment {
    pub position: Position,
    pub color: Color,
}

/// The part of a snake that carries its identity, its heading and its tail.
#[derive(Clone, Debug, PartialEq, Eq)]
pub struct SnakeHead {
    /// The identifier that the server assigned.
    pub id: u32,
    /// The direction last committed by the server.
    pub direction: Direction,
    /// The direction last requested and not yet committed.
    pub input_direction: Direction,
    pub color: Color,
    /// The tail, in the order in which the server grew it.
    pub tail: Vec<TailSegment>,
}

/// A snake: its head and where the head is.
#[derive(Clone, Debug, PartialEq, Eq)]
pub struct Snake {
    pub head: SnakeHead,
    pub position: Position,
}

/// The mathematical value of a [`Snake`].
pub struct SnakeView {
    pub id: u32,
    pub position: Position,
    pub direction: Direction,
    pub input_direction: Direction,
    pub color: Color,
    pub tail: Seq<TailSegment>,
}

impl View for Snake {
    type V = SnakeView;

    open spec fn view(&self) -> SnakeView {
        SnakeView {
            id: self.head.id,
            position: self.position,
            direction: self.head.direction,
            input_direction: self.head.input_direction,
            color: self.head.color,
            tail: self.head.tail@,
        }
    }
}

/// The direction that a snake faces, and has requested, until the server says otherwise.
pub open spec fn initial_direction() -> Direction {
    Direction::Up
}

impl Snake {
    /// The value of a snake that has just been spawned: no tail yet, and the initial direction
    /// both committed and requested.
    pub open spec fn spec_spawned(id: u32, position: Position, color: Color) -> SnakeView {
        SnakeView {
            id,
            position,
            direction: initial_direction(),
            input_direction: initial_direction(),
            color,
            tail: Seq::empty(),
        }
    }

    /// Creates a snake without a tail at `position`.
    pub fn spawned(id: u32, position: Position, color: Color) -> (snake: Snake)
        ensures
            snake@ == Snake::spec_spawned(id, position, color),
    {
        Snake {
            head: SnakeHead {
                id,
                direction: Direction::Up,
                input_direction: Direction::Up,
                color,
                tail: Vec::new(),
            },
            position,
        }
    }
}

} // verus!
