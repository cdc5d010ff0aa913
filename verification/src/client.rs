//! One tick of the client: the routines of the current phase, run in their fixed order.

use vstd::prelude::*;
use crate::components::SnakeView;
use crate::error::ProtocolViolation;
use crate::input::{PressedKeys, input_sampled, snake_movement_input};
use crate::packets::{Ready, SnakeMovement, SnakePositions, SpawnSnake, SpawnTail, StartNewGameAck};
use crate::positions::{positions_reconciled, update_snake_positions};
use crate::session::{Phase, Session, SessionView, ack_received, pre_game_step};
use crate::tails::{handle_spawn_tail, tails_spawned};
use crate::world::World;

verus! {

/// What was polled for a tick, one batch for each kind of packet. A kind of which nothing
/// arrived, or which was not polled, is `None`.
#[derive(Clone, Debug, PartialEq, Eq)]
pub struct Inbound {
    pub acks: Option<Vec<StartNewGameAck>>,
    pub spawns: Option<Vec<SpawnSnake>>,
    pub positions: Option<Vec<SnakePositions>>,
    pub spawn_tails: Option<Vec<SpawnTail>>,
}

/// A packet for the server.
#[derive(Clone, Copy, Debug, PartialEq, Eq, Structural)]
pub enum Outbound {
    Ready(Ready),
    Movement(SnakeMovement),
}

/// The client: its session with the server and the world as it knows it.
#[derive(Clone, Debug, PartialEq, Eq)]
pub struct Client {
    pub session: Session,
    pub world: World,
}

/// What a tick comes to.
pub struct Ticked {
    pub session: SessionView,
    pub world: Seq<SnakeView>,
    /// The packet to send, if any, or the violation that ends the session.
    pub result: Result<Option<Outbound>, ProtocolViolation>,
}

/// What a tick of the running phase makes of the world: positions are reconciled first, then
/// tails grow, then the input is sampled. A violation ends the tick where it occurs.
pub open spec fn running_step(
    session: SessionView,
    world: Seq<SnakeView>,
    inbound: Inbound,
    keys: PressedKeys,
) -> Ticked {
    let moved = positions_reconciled(world, inbound.positions);
    let grown = tails_spawned(moved.world, inbound.spawn_tails);
    match (moved.violation, grown.violation, session.client_id) {
        (Some(violation), _, _) => Ticked { session, world: moved.world, result: Err(violation) },
        (None, Some(violation), _) => Ticked {
            session,
            world: grown.world,
            result: Err(violation),
        },
        (None, None, Some(client_id)) => {
            let sampled = input_sampled(grown.world, client_id, keys);
            Ticked {
                session,
                world: sampled.world,
                result: Ok(
                    match sampled.intent {
                        Some(movement) => Some(Outbound::Movement(movement)),
                        None => None,
                    },
                ),
            }
        },
        (None, None, None) => Ticked { session, world: grown.world, result: Ok(None) },
    }
}

/// What a tick makes of session and world: the routines of the phase in which the tick
/// starts, and of no other phase. Batches that belong to another phase are not looked at.
pub open spec fn tick_step(
    session: SessionView,
    world: Seq<SnakeView>,
    inbound: Inbound,
    keys: PressedKeys,
) -> Ticked {
    match session.phase {
        Phase::ConnectingToServer => Ticked {
            session: ack_received(session, inbound.acks),
            world,
            result: Ok(None),
        },
        Phase::PreGame => {
            let step = pre_game_step(session, world, inbound.spawns);
            Ticked {
                session: step.session,
                world: step.world,
                result: match step.result {
                    Ok(Some(ready)) => Ok(Some(Outbound::Ready(ready))),
                    Ok(None) => Ok(None),
                    Err(violation) => Err(violation),
                },
            }
        },
        Phase::Running => running_step(session, world, inbound, keys),
    }
}

impl Client {
    /// Creates a client that is connecting and knows of no snake.
    pub fn new() -> (client: Client)
        ensures
            client.session@ == SessionView::initial(),
            client.world@ == Seq::<SnakeView>::empty(),
    {
        Client { session: Session::new(), world: World::new() }
    }

    /// Runs one tick and returns the packet to send, if there is one.
    ///
    /// After a violation the session is over, and the client is not to be ticked again.
    pub fn tick(&mut self, inbound: Inbound, keys: PressedKeys) -> (res: Result<
        Option<Outbound>,
        ProtocolViolation,
    >)
        ensures
            final(self).session@ == tick_step(
                old(self).session@,
                old(self).world@,
                inbound,
                keys,
            ).session,
            final(self).world@ == tick_step(
                old(self).session@,
                old(self).world@,
                inbound,
                keys,
            ).world,
            res == tick_step(old(self).session@, old(self).world@, inbound, keys).result,
    {
        let Inbound { acks, spawns, positions, spawn_tails } = inbound;
        match self.session.phase() {
            Phase::ConnectingToServer => {
                self.session.wait_for_ack(acks);
                Ok(None)
            },
            Phase::PreGame => {
                match self.session.pre_game(&mut self.world, spawns) {
                    Ok(Some(ready)) => Ok(Some(Outbound::Ready(ready))),
                    Ok(None) => Ok(None),
                    Err(violation) => Err(violation),
                }
            },
            Phase::Running => {
                match update_snake_positions(&mut self.world, positions) {
                    Ok(()) => {},
                    Err(violation) => {
                        return Err(violation);
                    },
                }
                match handle_spawn_tail(&mut self.world, spawn_tails) {
                    Ok(()) => {},
                    Err(violation) => {
                        return Err(violation);
                    },
                }
                match self.session.client_id() {
                    Some(client_id) => {
                        match snake_movement_input(&mut self.world, client_id, keys) {
                            Some(movement) => Ok(Some(Outbound::Movement(movement))),
                            None => Ok(None),
                        }
                    },
                    None => Ok(None),
                }
            },
        }
    }
}

/// A session only ever moves forward, and a tick sends a packet of the phase in which it
/// starts: nothing while connecting, nothing but readiness before the game, nothing but a
/// movement while the game runs.
pub proof fn lemma_tick_moves_forward(
    session: SessionView,
    world: Seq<SnakeView>,
    inbound: Inbound,
    keys: PressedKeys,
)
    ensures
        ({
            let ticked = tick_step(session, world, inbound, keys);
            &&& match session.phase {
                Phase::ConnectingToServer => ticked.session.phase != Phase::Running
                    && ticked.result == Ok::<Option<Outbound>, ProtocolViolation>(None)
                    && ticked.world == world,
                Phase::PreGame => ticked.session.phase != Phase::ConnectingToServer && !(
                ticked.result matches Ok(Some(Outbound::Movement(_)))) && (ticked.session.phase
                    == Phase::Running <==> ticked.result matches Ok(Some(Outbound::Ready(_)))),
                Phase::Running => ticked.session == session && !(ticked.result matches Ok(
                    Some(Outbound::Ready(_)),
                )),
            }
        }),
{
}

} // verus!
