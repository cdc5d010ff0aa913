//! Tail spawn reconciliation: growing a snake's tail when the server says so.

use vstd::prelude::*;
use crate::components::{SnakeView, TailSegment};
use crate::directory::Directory;
use crate::error::ProtocolViolation;
use crate::packets::SpawnTail;
use crate::world::{Reconciled, World, ids_of, last_index_of, lemma_last_index_of};

verus! {

/// A snake after a segment was spawned at the end of its tail. The segment takes the color
/// that the head has at that moment.
pub open spec fn grow_snake(snake: SnakeView, spawn: SpawnTail) -> SnakeView {
    SnakeView {
        id: snake.id,
        position: snake.position,
        direction: snake.direction,
        input_direction: snake.input_direction,
        color: snake.color,
        tail: snake.tail.push(TailSegment { position: spawn.position, color: snake.color }),
    }
}

/// The world after one tail spawn: the snake that the record names grows by one segment; a
/// record that names no snake of the world is a violation and changes nothing.
pub open spec fn apply_spawn_tail(world: Seq<SnakeView>, spawn: SpawnTail) -> Reconciled {
    match last_index_of(ids_of(world), spawn.id) {
        Some(i) => Reconciled { world: world.update(i, grow_snake(world[i], spawn)), violation: None },
        None => Reconciled {
            world,
            violation: Some(ProtocolViolation::UnknownSnake { id: spawn.id }),
        },
    }
}

/// The world after a sequence of tail spawns, applied in order up to the first violation.
pub open spec fn apply_spawn_tails(world: Seq<SnakeView>, spawns: Seq<SpawnTail>) -> Reconciled
    decreases spawns.len(),
{
    if spawns.len() == 0 {
        Reconciled { world, violation: None }
    } else {
        let first = apply_spawn_tail(world, spawns.first());
        if first.violation is Some {
            first
        } else {
            apply_spawn_tails(first.world, spawns.drop_first())
        }
    }
}

/// What tail spawn reconciliation makes of what was polled this tick: nothing where nothing
/// arrived, else the records of the batch applied in order.
pub open spec fn tails_spawned(world: Seq<SnakeView>, batch: Option<Vec<SpawnTail>>) -> Reconciled {
    match batch {
        Some(spawns) => apply_spawn_tails(world, spawns@),
        None => Reconciled { world, violation: None },
    }
}

/// Applies the tail spawns that were polled this tick, in order.
///
/// Each record appends one segment, at the record's position and in the head's color, to the
/// tail of the snake that it names. The first record that names no snake of the world ends
/// the batch with `UnknownSnake`: the records before it stay applied, the rest is not looked
/// at. The directory is built anew for every record.
pub fn handle_spawn_tail(world: &mut World, batch: Option<Vec<SpawnTail>>) -> (res: Result<
    (),
    ProtocolViolation,
>)
    ensures
        final(world)@ == tails_spawned(old(world)@, batch).world,
        res == tails_spawned(old(world)@, batch).result(),
{
    let spawns = match batch {
        Some(spawns) => spawns,
        None => {
            return Ok(());
        },
    };
    let ghost goal = tails_spawned(old(world)@, batch);
    let mut k: usize = 0;
    assert(spawns@.skip(0) == spawns@);
    while k < spawns.len()
        invariant
            k <= spawns.len(),
            goal == tails_spawned(old(world)@, batch),
            goal == apply_spawn_tails(world@, spawns@.skip(k as int)),
        decreases spawns.len() - k,
    {
        let spawn = spawns[k];
        let directory = Directory::build(world);
        proof {
            assert(spawns@.skip(k as int).first() == spawn);
            assert(spawns@.skip(k as int).drop_first() == spawns@.skip(k + 1));
            lemma_last_index_of(ids_of(world@), spawn.id);
        }
        match directory.lookup(spawn.id) {
            Some(i) => {
                let ghost before = world@;
                let color = world.snakes[i].head.color;
                world.snakes[i].head.tail.push(TailSegment { position: spawn.position, color });
                assert(world@ =~= before.update(i as int, grow_snake(before[i as int], spawn)));
            },
            None => {
                return Err(ProtocolViolation::UnknownSnake { id: spawn.id });
            },
        }
        k += 1;
    }
    Ok(())
}

/// A tail only ever grows at its end: after a batch of tail spawns every snake is what it
/// was, with its old segments where they were and the new ones behind them.
pub proof fn lemma_tails_grow_by_appending(world: Seq<SnakeView>, batch: Option<Vec<SpawnTail>>)
    ensures
        tails_spawned(world, batch).world.len() == world.len(),
        forall|i: int|
            0 <= i < world.len() ==> {
                let before = world[i];
                let after = #[trigger] tails_spawned(world, batch).world[i];
                &&& after.id == before.id
                &&& after.position == before.position
                &&& after.direction == before.direction
                &&& after.input_direction == before.input_direction
                &&& after.color == before.color
                &&& before.tail.is_prefix_of(after.tail)
            },
{
    match batch {
        Some(spawns) => {
            lemma_spawn_tails_append(world, spawns@);
        },
        None => {},
    }
}

/// The same of a plain sequence of tail spawns, by induction over it.
proof fn lemma_spawn_tails_append(world: Seq<SnakeView>, spawns: Seq<SpawnTail>)
    ensures
        apply_spawn_tails(world, spawns).world.len() == world.len(),
        forall|i: int|
            0 <= i < world.len() ==> {
                let before = world[i];
                let after = #[trigger] apply_spawn_tails(world, spawns).world[i];
                &&& after.id == before.id
                &&& after.position == before.position
                &&& after.direction == before.direction
                &&& after.input_direction == before.input_direction
                &&& after.color == before.color
                &&& before.tail.is_prefix_of(after.tail)
            },
    decreases spawns.len(),
{
    if spawns.len() > 0 {
        let first = apply_spawn_tail(world, spawns.first());
        lemma_last_index_of(ids_of(world), spawns.first().id);
        if first.violation is None {
            lemma_spawn_tails_append(first.world, spawns.drop_first());
            let end = apply_spawn_tails(first.world, spawns.drop_first()).world;
            assert forall|i: int| 0 <= i < world.len() implies world[i].tail.is_prefix_of(
                (#[trigger] end[i]).tail,
            ) by {
                assert(world[i].tail.is_prefix_of(first.world[i].tail));
                assert(first.world[i].tail.is_prefix_of(end[i].tail));
            }
        }
    }
}

} // verus!
