//! Input sampling: turning the keys held this tick into at most one request to the server.

use vstd::prelude::*;
use crate::components::{Direction, SnakeView};
use crate::packets::SnakeMovement;
use crate::world::{World, first_index_of, ids_of, lemma_first_index_of};

verus! {

/// Which of the four direction keys are held down.
#[derive(Clone, Copy, Debug, PartialEq, Eq, Structural)]
pub struct PressedKeys {
    pub left: bool,
    pub down: bool,
    pub up: bool,
    pub right: bool,
}

/// The direction that the keys ask for: left before down before up before right where several
/// are held, and the pending direction where none is.
pub open spec fn sampled_direction(keys: PressedKeys, pending: Direction) -> Direction {
    if keys.left {
        Direction::Left
    } else if keys.down {
        Direction::Down
    } else if keys.up {
        Direction::Up
    } else if keys.right {
        Direction::Right
    } else {
        pending
    }
}

/// Whether `candidate` is worth sending: it must not reverse the committed direction, and it
/// must differ from what is pending already.
pub open spec fn is_new_intent(
    candidate: Direction,
    committed: Direction,
    pending: Direction,
) -> bool {
    candidate != committed.spec_opposite() && candidate != pending
}

/// What sampling the input comes to: the world as it is left, and the request to send, if any.
pub struct Sampled {
    pub world: Seq<SnakeView>,
    pub intent: Option<SnakeMovement>,
}

/// What input sampling makes of the keys: the first snake that carries `client_id` is the
/// player's. Where the keys ask for a new direction, it becomes that snake's pending direction
/// and is requested from the server. Else, and where the player has no snake yet, nothing
/// happens.
pub open spec fn input_sampled(world: Seq<SnakeView>, client_id: u32, keys: PressedKeys) -> Sampled {
    match first_index_of(ids_of(world), client_id) {
        Some(i) => {
            let candidate = sampled_direction(keys, world[i].input_direction);
            if is_new_intent(candidate, world[i].direction, world[i].input_direction) {
                Sampled {
                    world: world.update(
                        i,
                        SnakeView {
                            id: world[i].id,
                            position: world[i].position,
                            direction: world[i].direction,
                            input_direction: candidate,
                            color: world[i].color,
                            tail: world[i].tail,
                        },
                    ),
                    intent: Some(SnakeMovement { id: client_id, direction: candidate }),
                }
            } else {
                Sampled { world, intent: None }
            }
        },
        None => Sampled { world, intent: None },
    }
}

impl PressedKeys {
    /// Computes [`sampled_direction`].
    pub fn direction(self, pending: Direction) -> (candidate: Direction)
        ensures
            candidate == sampled_direction(self, pending),
    {
        if self.left {
            Direction::Left
        } else if self.down {
            Direction::Down
        } else if self.up {
            Direction::Up
        } else if self.right {
            Direction::Right
        } else {
            pending
        }
    }
}

/// Samples the keys for the player's snake and returns the request to send, if there is one.
///
/// A request is due exactly when the sampled direction neither reverses the snake's committed
/// direction nor repeats its pending one; the pending direction is then set at once, so that
/// a key that stays down is requested a single time.
pub fn snake_movement_input(world: &mut World, client_id: u32, keys: PressedKeys) -> (intent:
    Option<SnakeMovement>)
    ensures
        final(world)@ == input_sampled(old(world)@, client_id, keys).world,
        intent == input_sampled(old(world)@, client_id, keys).intent,
{
    let mut k: usize = 0;
    proof {
        lemma_first_index_of(ids_of(world@), client_id);
    }
    while k < world.snakes.len()
        invariant
            k <= world.snakes.len(),
            world@ == old(world)@,
            forall|j: int| 0 <= j < k ==> ids_of(world@)[j] != client_id,
            match first_index_of(ids_of(world@), client_id) {
                Some(i) => 0 <= i < world@.len() && ids_of(world@)[i] == client_id && forall|j: int|
                    0 <= j < i ==> ids_of(world@)[j] != client_id,
                None => forall|j: int| 0 <= j < world@.len() ==> ids_of(world@)[j] != client_id,
            },
        decreases world.snakes.len() - k,
    {
        if world.snakes[k].head.id == client_id {
            assert(ids_of(world@)[k as int] == client_id);
            assert(first_index_of(ids_of(world@), client_id) == Some(k as int));
            let pending = world.snakes[k].head.input_direction;
            let candidate = keys.direction(pending);
            if candidate != world.snakes[k].head.direction.opposite() && candidate != pending {
                world.snakes[k].head.input_direction = candidate;
                assert(world@ =~= input_sampled(old(world)@, client_id, keys).world);
                return Some(SnakeMovement { id: client_id, direction: candidate });
            }
            return None;
        }
        k += 1;
    }
    assert(first_index_of(ids_of(world@), client_id) is None);
    None
}

/// A key that is held is requested once: sampling the same keys again, right after they were
/// sampled, requests nothing and changes nothing.
pub proof fn lemma_held_keys_request_once(world: Seq<SnakeView>, client_id: u32, keys: PressedKeys)
    ensures
        input_sampled(input_sampled(world, client_id, keys).world, client_id, keys) == (Sampled {
            world: input_sampled(world, client_id, keys).world,
            intent: None,
        }),
{
    let once = input_sampled(world, client_id, keys);
    lemma_first_index_of(ids_of(world), client_id);
    assert(ids_of(once.world) =~= ids_of(world));
}

/// A request never reverses the direction that the server last committed for the player's
/// snake, never repeats the pending direction, and always carries the player's identifier.
pub proof fn lemma_intent_is_legal(world: Seq<SnakeView>, client_id: u32, keys: PressedKeys)
    ensures
        match input_sampled(world, client_id, keys).intent {
            Some(movement) => {
                &&& first_index_of(ids_of(world), client_id) matches Some(i)
                &&& movement.id == client_id
                &&& movement.direction == sampled_direction(keys, world[i].input_direction)
                &&& movement.direction != world[i].direction.spec_opposite()
                &&& movement.direction != world[i].input_direction
                &&& input_sampled(world, client_id, keys).world[i].input_direction
                    == movement.direction
            },
            None => input_sampled(world, client_id, keys).world == world,
        },
{
    lemma_first_index_of(ids_of(world), client_id);
}

} // verus!
