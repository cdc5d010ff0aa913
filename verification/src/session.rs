//! The connection phase state machine, and the two routines that drive it forward: waiting
//! for the server's acknowledgement, and spawning the declared snakes before the game runs.

use vstd::prelude::*;
use crate::components::{Snake, SnakeView};
use crate::error::ProtocolViolation;
use crate::packets::{Ready, SpawnSnake, StartNewGameAck};
use crate::world::World;

verus! {

/// Where the session stands.
#[derive(Clone, Copy, Debug, PartialEq, Eq, Structural)]
pub enum Phase {
    /// Waiting for the server to acknowledge the new game.
    ConnectingToServer,
    /// Spawning the snakes that the server declared.
    PreGame,
    /// Playing.
    Running,
}

/// The state of one session with the server.
#[derive(Clone, Copy, Debug, PartialEq, Eq)]
pub struct Session {
    phase: Phase,
    next_id: u64,
    num_snakes_to_spawn: u32,
    client_id: Option<u32>,
}

/// The mathematical value of a [`Session`].
pub struct SessionView {
    pub phase: Phase,
    /// The identifier that the next spawned snake must carry.
    pub next_id: nat,
    /// How many of the declared snakes are still to be spawned.
    pub num_snakes_to_spawn: nat,
    /// The identifier of the player's snake, once the server has assigned it.
    pub client_id: Option<u32>,
}

impl SessionView {
    /// The session as it is opened: connecting, with identifier 0 as the first to expect.
    pub open spec fn initial() -> SessionView {
        SessionView {
            phase: Phase::ConnectingToServer,
            next_id: 0,
            num_snakes_to_spawn: 0,
            client_id: None,
        }
    }
}

impl View for Session {
    type V = SessionView;

    closed spec fn view(&self) -> SessionView {
        SessionView {
            phase: self.phase,
            next_id: self.next_id as nat,
            num_snakes_to_spawn: self.num_snakes_to_spawn as nat,
            client_id: self.client_id,
        }
    }
}

/// The session after a poll for the acknowledgement. While connecting, the first
/// acknowledgement of a batch that holds one sets the number of snakes to spawn and the
/// player's identifier and opens the pre-game phase; the acknowledgements behind it are not
/// looked at. In any other case the session stays as it is.
pub open spec fn ack_received(
    session: SessionView,
    batch: Option<Vec<StartNewGameAck>>,
) -> SessionView {
    match batch {
        Some(acks) => if session.phase == Phase::ConnectingToServer && acks@.len() > 0 {
            SessionView {
                phase: Phase::PreGame,
                next_id: session.next_id,
                num_snakes_to_spawn: acks@[0].num_snakes as nat,
                client_id: Some(acks@[0].client_id),
            }
        } else {
            session
        },
        None => session,
    }
}

/// The counters and the world in the course of a batch of spawns, and the violation that
/// stopped the batch, if one did.
pub struct Spawned {
    pub next_id: nat,
    pub num_snakes_to_spawn: nat,
    pub world: Seq<SnakeView>,
    pub violation: Option<ProtocolViolation>,
}

/// What one spawn record does.
///
/// A record below the next expected identifier was processed before and is passed over. A
/// record above it shows that a spawn was missed, a violation. The record that carries the
/// expected identifier spawns a snake at the end of the world, moves the expected identifier
/// up by one and the number of snakes to spawn down by one; where no snake is left to spawn
/// it is a violation instead. A violation changes nothing.
pub open spec fn apply_spawn(
    next_id: nat,
    num_snakes_to_spawn: nat,
    world: Seq<SnakeView>,
    spawn: SpawnSnake,
) -> Spawned {
    if spawn.id < next_id {
        Spawned { next_id, num_snakes_to_spawn, world, violation: None }
    } else if spawn.id > next_id {
        Spawned {
            next_id,
            num_snakes_to_spawn,
            world,
            violation: Some(
                ProtocolViolation::UnexpectedSnakeId {
                    received: spawn.id,
                    expected: next_id as u64,
                },
            ),
        }
    } else if num_snakes_to_spawn == 0 {
        Spawned {
            next_id,
            num_snakes_to_spawn,
            world,
            violation: Some(ProtocolViolation::TooManySnakes),
        }
    } else {
        Spawned {
            next_id: next_id + 1,
            num_snakes_to_spawn: (num_snakes_to_spawn - 1) as nat,
            world: world.push(Snake::spec_spawned(spawn.id, spawn.position, spawn.color)),
            violation: None,
        }
    }
}

/// What a sequence of spawn records does, applied in order up to the first violation.
pub open spec fn apply_spawns(
    next_id: nat,
    num_snakes_to_spawn: nat,
    world: Seq<SnakeView>,
    spawns: Seq<SpawnSnake>,
) -> Spawned
    decreases spawns.len(),
{
    if spawns.len() == 0 {
        Spawned { next_id, num_snakes_to_spawn, world, violation: None }
    } else {
        let first = apply_spawn(next_id, num_snakes_to_spawn, world, spawns.first());
        if first.violation is Some {
            first
        } else {
            apply_spawns(first.next_id, first.num_snakes_to_spawn, first.world, spawns.drop_first())
        }
    }
}

/// What a tick of the pre-game phase comes to.
pub struct PreGameStep {
    pub session: SessionView,
    pub world: Seq<SnakeView>,
    /// Whether the server is to be told that the client is ready, or what went wrong.
    pub result: Result<Option<Ready>, ProtocolViolation>,
}

/// What the pre-game routine makes of what was polled this tick.
///
/// Outside the pre-game phase, and where nothing arrived, nothing happens. Else the records
/// of the batch are applied in order. A violation ends the session. Without one, readiness is
/// due exactly if no snake is left to spawn once the batch is done, and with it the session
/// moves on to the running phase.
pub open spec fn pre_game_step(
    session: SessionView,
    world: Seq<SnakeView>,
    batch: Option<Vec<SpawnSnake>>,
) -> PreGameStep {
    match batch {
        Some(spawns) => if session.phase == Phase::PreGame {
            let done = apply_spawns(
                session.next_id,
                session.num_snakes_to_spawn,
                world,
                spawns@,
            );
            let ready = done.violation is None && done.num_snakes_to_spawn == 0;
            PreGameStep {
                session: SessionView {
                    phase: if ready {
                        Phase::Running
                    } else {
                        Phase::PreGame
                    },
                    next_id: done.next_id,
                    num_snakes_to_spawn: done.num_snakes_to_spawn,
                    client_id: session.client_id,
                },
                world: done.world,
                result: match done.violation {
                    Some(violation) => Err(violation),
                    None => Ok(
                        if ready {
                            Some(Ready)
                        } else {
                            None
                        },
                    ),
                },
            }
        } else {
            PreGameStep { session, world, result: Ok(None) }
        },
        None => PreGameStep { session, world, result: Ok(None) },
    }
}

impl Session {
    /// Opens a session: connecting, with identifier 0 as the first to expect.
    pub fn new() -> (session: Session)
        ensures
            session@ == SessionView::initial(),
    {
        Session {
            phase: Phase::ConnectingToServer,
            next_id: 0,
            num_snakes_to_spawn: 0,
            client_id: None,
        }
    }

    /// The phase that the session is in.
    pub fn phase(&self) -> (phase: Phase)
        ensures
            phase == self@.phase,
    {
        self.phase
    }

    /// The identifier that the next spawned snake must carry.
    pub fn next_id(&self) -> (next_id: u64)
        ensures
            next_id == self@.next_id,
    {
        self.next_id
    }

    /// How many of the declared snakes are still to be spawned.
    pub fn num_snakes_to_spawn(&self) -> (num: u32)
        ensures
            num == self@.num_snakes_to_spawn,
    {
        self.num_snakes_to_spawn
    }

    /// The identifier of the player's snake, once the server has assigned it.
    pub fn client_id(&self) -> (client_id: Option<u32>)
        ensures
            client_id == self@.client_id,
    {
        self.client_id
    }

    /// Takes in what a poll for the acknowledgement brought.
    pub fn wait_for_ack(&mut self, batch: Option<Vec<StartNewGameAck>>)
        ensures
            final(self)@ == ack_received(old(self)@, batch),
    {
        match self.phase {
            Phase::ConnectingToServer => {},
            _ => {
                return ;
            },
        }
        if let Some(acks) = batch {
            if acks.len() > 0 {
                self.num_snakes_to_spawn = acks[0].num_snakes;
                self.client_id = Some(acks[0].client_id);
                self.phase = Phase::PreGame;
            }
        }
    }

    /// Takes in the spawn records that were polled this tick and says whether the server is to
    /// be told that the client is ready.
    ///
    /// The answer is `Some(Ready)` at most once in the life of a session: giving it ends the
    /// pre-game phase, and outside that phase the routine does nothing.
    pub fn pre_game(&mut self, world: &mut World, batch: Option<Vec<SpawnSnake>>) -> (res: Result<
        Option<Ready>,
        ProtocolViolation,
    >)
        ensures
            final(self)@ == pre_game_step(old(self)@, old(world)@, batch).session,
            final(world)@ == pre_game_step(old(self)@, old(world)@, batch).world,
            res == pre_game_step(old(self)@, old(world)@, batch).result,
    {
        match self.phase {
            Phase::PreGame => {},
            _ => {
                return Ok(None);
            },
        }
        let spawns = match batch {
            Some(spawns) => spawns,
            None => {
                return Ok(None);
            },
        };
        let ghost goal = apply_spawns(
            old(self)@.next_id,
            old(self)@.num_snakes_to_spawn,
            old(world)@,
            spawns@,
        );
        let mut k: usize = 0;
        assert(spawns@.skip(0) == spawns@);
        while k < spawns.len()
            invariant
                k <= spawns.len(),
                batch == Some(spawns),
                old(self)@.phase == Phase::PreGame,
                self.phase == Phase::PreGame,
                self.client_id == old(self).client_id,
                goal == apply_spawns(
                    old(self)@.next_id,
                    old(self)@.num_snakes_to_spawn,
                    old(world)@,
                    spawns@,
                ),
                goal == apply_spawns(
                    self@.next_id,
                    self@.num_snakes_to_spawn,
                    world@,
                    spawns@.skip(k as int),
                ),
            decreases spawns.len() - k,
        {
            let spawn = spawns[k];
            let id = spawn.id as u64;
            proof {
                assert(spawns@.skip(k as int).first() == spawn);
                assert(spawns@.skip(k as int).drop_first() == spawns@.skip(k + 1));
            }
            if id > self.next_id {
                return Err(
                    ProtocolViolation::UnexpectedSnakeId {
                        received: spawn.id,
                        expected: self.next_id,
                    },
                );
            }
            if id == self.next_id {
                if self.num_snakes_to_spawn == 0 {
                    return Err(ProtocolViolation::TooManySnakes);
                }
                let ghost before = world@;
                world.snakes.push(Snake::spawned(spawn.id, spawn.position, spawn.color));
                self.next_id = id + 1;
                self.num_snakes_to_spawn = self.num_snakes_to_spawn - 1;
                assert(world@ =~= before.push(
                    Snake::spec_spawned(spawn.id, spawn.position, spawn.color),
                ));
            }
            k += 1;
        }
        if self.num_snakes_to_spawn == 0 {
            self.phase = Phase::Running;
            Ok(Some(Ready))
        } else {
            Ok(None)
        }
    }
}

/// Spawns are accepted in sequence: whatever a batch holds, the snakes that it adds stand at
/// the end of the world and carry the identifiers from the expected one upwards without a
/// gap, the expected identifier has moved up by one for each of them, and the number of
/// snakes to spawn has moved down by one for each of them.
pub proof fn lemma_spawns_accepted_in_sequence(
    next_id: nat,
    num_snakes_to_spawn: nat,
    world: Seq<SnakeView>,
    spawns: Seq<SpawnSnake>,
)
    ensures
        ({
            let done = apply_spawns(next_id, num_snakes_to_spawn, world, spawns);
            let accepted = done.world.len() - world.len();
            &&& world.is_prefix_of(done.world)
            &&& done.next_id == next_id + accepted
            &&& done.num_snakes_to_spawn + accepted == num_snakes_to_spawn
            &&& forall|j: int|
                0 <= j < accepted ==> (#[trigger] done.world[world.len() + j]).id == next_id + j
        }),
    decreases spawns.len(),
{
    if spawns.len() > 0 {
        let first = apply_spawn(next_id, num_snakes_to_spawn, world, spawns.first());
        if first.violation is None {
            lemma_spawns_accepted_in_sequence(
                first.next_id,
                first.num_snakes_to_spawn,
                first.world,
                spawns.drop_first(),
            );
            let done = apply_spawns(next_id, num_snakes_to_spawn, world, spawns);
            let accepted = done.world.len() - world.len();
            assert forall|j: int| 0 <= j < accepted implies (#[trigger] done.world[world.len()
                + j]).id == next_id + j by {
                if first.world.len() > world.len() {
                    if j > 0 {
                        assert(done.world[first.world.len() + (j - 1)].id == first.next_id + (j
                            - 1));
                    } else {
                        assert(done.world[world.len() as int] == first.world[world.len() as int]);
                    }
                } else {
                    assert(done.world[first.world.len() + j].id == first.next_id + j);
                }
            }
        }
    }
}

/// A record above the expected identifier is never accepted: a batch that holds one at a
/// place that the batch reaches ends in a violation.
pub proof fn lemma_gap_is_fatal(
    next_id: nat,
    num_snakes_to_spawn: nat,
    world: Seq<SnakeView>,
    spawns: Seq<SpawnSnake>,
    k: int,
)
    requires
        0 <= k < spawns.len(),
        spawns[k].id > apply_spawns(next_id, num_snakes_to_spawn, world, spawns.take(k)).next_id,
    ensures
        apply_spawns(next_id, num_snakes_to_spawn, world, spawns).violation is Some,
    decreases spawns.len(),
{
    let first = apply_spawn(next_id, num_snakes_to_spawn, world, spawns.first());
    if k == 0 {
        assert(spawns.take(0).len() == 0);
    } else if first.violation is None {
        assert(spawns.take(k).first() == spawns.first());
        assert(spawns.take(k).drop_first() == spawns.drop_first().take(k - 1));
        lemma_gap_is_fatal(
            first.next_id,
            first.num_snakes_to_spawn,
            first.world,
            spawns.drop_first(),
            k - 1,
        );
    }
}

/// The number of snakes to spawn never grows in the pre-game routine, and readiness is due
/// exactly when a batch was taken in without a violation and left no snake to spawn.
pub proof fn lemma_ready_exactly_at_zero(
    session: SessionView,
    world: Seq<SnakeView>,
    batch: Option<Vec<SpawnSnake>>,
)
    ensures
        ({
            let step = pre_game_step(session, world, batch);
            &&& step.session.num_snakes_to_spawn <= session.num_snakes_to_spawn
            &&& step.session.next_id >= session.next_id
            &&& step.session.client_id == session.client_id
            &&& step.result == Ok::<Option<Ready>, ProtocolViolation>(Some(Ready)) <==> {
                &&& session.phase == Phase::PreGame
                &&& batch is Some
                &&& step.result is Ok
                &&& step.session.num_snakes_to_spawn == 0
            }
            &&& step.result == Ok::<Option<Ready>, ProtocolViolation>(Some(Ready))
                ==> step.session.phase == Phase::Running
            &&& step.session.phase == Phase::Running ==> session.phase == Phase::Running
                || step.result == Ok::<Option<Ready>, ProtocolViolation>(Some(Ready))
            &&& session.phase == Phase::Running ==> step.session == session && step.world == world
        }),
{
    match batch {
        Some(spawns) => {
            lemma_spawns_accepted_in_sequence(
                session.next_id,
                session.num_snakes_to_spawn,
                world,
                spawns@,
            );
        },
        None => {},
    }
}

/// How often readiness is due while the pre-game routine takes in one batch after the other,
/// up to the violation that ends the session, if there is one.
pub open spec fn readies_due(
    session: SessionView,
    world: Seq<SnakeView>,
    batches: Seq<Option<Vec<SpawnSnake>>>,
) -> nat
    decreases batches.len(),
{
    if batches.len() == 0 {
        0
    } else {
        let step = pre_game_step(session, world, batches.first());
        match step.result {
            Ok(ready) => (if ready is Some {
                1nat
            } else {
                0nat
            }) + readies_due(step.session, step.world, batches.drop_first()),
            Err(_) => 0,
        }
    }
}

/// Readiness is due at most once in the life of a session, whatever arrives, and never again
/// once the session is running.
pub proof fn lemma_ready_at_most_once(
    session: SessionView,
    world: Seq<SnakeView>,
    batches: Seq<Option<Vec<SpawnSnake>>>,
)
    ensures
        readies_due(session, world, batches) <= 1,
        session.phase == Phase::Running ==> readies_due(session, world, batches) == 0,
    decreases batches.len(),
{
    if batches.len() > 0 {
        let step = pre_game_step(session, world, batches.first());
        lemma_ready_exactly_at_zero(session, world, batches.first());
        lemma_ready_at_most_once(step.session, step.world, batches.drop_first());
    }
}

/// The player's identifier and the number of snakes to spawn are set once: from the moment
/// the session is past connecting, a poll for the acknowledgement changes nothing.
pub proof fn lemma_ack_taken_once(session: SessionView, batch: Option<Vec<StartNewGameAck>>)
    ensures
        session.phase != Phase::ConnectingToServer ==> ack_received(session, batch) == session,
        ack_received(session, batch).phase != Phase::Running || session.phase == Phase::Running,
{
}

} // verus!
