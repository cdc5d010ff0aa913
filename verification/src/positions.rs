//! Position reconciliation: overwriting local snake state with the server's snapshots.

use vstd::prelude::*;
use crate::components::{Position, Snake, SnakeView, TailSegment};
use crate::directory::Directory;
use crate::error::ProtocolViolation;
use crate::packets::{SnakeOrientation, SnakePositions};
use crate::world::{Reconciled, World, ids_of, last_index_of, lemma_last_index_of};

verus! {

/// A tail after the server reported `reported` as its positions: segment by segment, in
/// order, as far as both the tail and the report reach. Segments beyond the report stay where
/// they are, and no segment changes its color.
pub open spec fn reconcile_tail(tail: Seq<TailSegment>, reported: Seq<Position>) -> Seq<
    TailSegment,
> {
    Seq::new(
        tail.len(),
        |j: int|
            if j < reported.len() {
                TailSegment { position: reported[j], color: tail[j].color }
            } else {
                tail[j]
            },
    )
}

/// A snake after `update` was applied to it: position and both directions are the server's,
/// the tail is reconciled, identifier and color are kept.
pub open spec fn reconcile_snake(snake: SnakeView, update: SnakeOrientation) -> SnakeView {
    SnakeView {
        id: snake.id,
        position: update.position,
        direction: update.direction,
        input_direction: update.input_direction,
        color: snake.color,
        tail: reconcile_tail(snake.tail, update.tail_positions@),
    }
}

/// The world after one update: the snake that the update names is reconciled; an update that
/// names no snake of the world is a violation and changes nothing.
pub open spec fn apply_orientation(world: Seq<SnakeView>, update: SnakeOrientation) -> Reconciled {
    match last_index_of(ids_of(world), update.id) {
        Some(i) => Reconciled {
            world: world.update(i, reconcile_snake(world[i], update)),
            violation: None,
        },
        None => Reconciled {
            world,
            violation: Some(ProtocolViolation::UnknownSnake { id: update.id }),
        },
    }
}

/// The world after a sequence of updates, applied in order up to the first violation.
pub open spec fn apply_orientations(
    world: Seq<SnakeView>,
    updates: Seq<SnakeOrientation>,
) -> Reconciled
    decreases updates.len(),
{
    if updates.len() == 0 {
        Reconciled { world, violation: None }
    } else {
        let first = apply_orientation(world, updates.first());
        if first.violation is Some {
            first
        } else {
            apply_orientations(first.world, updates.drop_first())
        }
    }
}

/// The updates of a batch of snapshots, in the order in which they arrived.
pub open spec fn orientations_of(packets: Seq<SnakePositions>) -> Seq<SnakeOrientation>
    decreases packets.len(),
{
    if packets.len() == 0 {
        Seq::empty()
    } else {
        packets.first().positions@ + orientations_of(packets.drop_first())
    }
}

/// What position reconciliation makes of what was polled this tick: nothing where nothing
/// arrived, else the updates of the batch applied in order.
pub open spec fn positions_reconciled(
    world: Seq<SnakeView>,
    batch: Option<Vec<SnakePositions>>,
) -> Reconciled {
    match batch {
        Some(packets) => apply_orientations(world, orientations_of(packets@)),
        None => Reconciled { world, violation: None },
    }
}

impl Snake {
    /// Overwrites position, directions and tail positions with the server's.
    pub fn reconcile(&mut self, update: &SnakeOrientation)
        ensures
            final(self)@ == reconcile_snake(old(self)@, *update),
            forall|j: int|
                update.tail_positions@.len() <= j < old(self)@.tail.len() ==> final(self)@.tail[j]
                    == old(self)@.tail[j],
    {
        self.position = update.position;
        self.head.input_direction = update.input_direction;
        self.head.direction = update.direction;
        let reported = update.tail_positions.len();
        let mut j: usize = 0;
        while j < self.head.tail.len() && j < reported
            invariant
                reported == update.tail_positions@.len(),
                j <= reported,
                j <= self.head.tail@.len(),
                self.head.tail@.len() == old(self).head.tail@.len(),
                self.head.id == old(self).head.id,
                self.head.color == old(self).head.color,
                self.position == update.position,
                self.head.input_direction == update.input_direction,
                self.head.direction == update.direction,
                forall|n: int|
                    0 <= n < j ==> self.head.tail@[n] == reconcile_tail(
                        old(self).head.tail@,
                        update.tail_positions@,
                    )[n],
                forall|n: int|
                    j <= n < self.head.tail@.len() ==> self.head.tail@[n] == old(
                        self,
                    ).head.tail@[n],
            decreases reported - j,
        {
            self.head.tail[j].position = update.tail_positions[j];
            j += 1;
        }
        assert(self.head.tail@ =~= reconcile_tail(old(self).head.tail@, update.tail_positions@));
    }
}

/// Reconciling a snake leaves the identifiers of the world as they were.
proof fn lemma_reconcile_keeps_ids(world: Seq<SnakeView>, i: int, update: SnakeOrientation)
    requires
        0 <= i < world.len(),
    ensures
        ids_of(world.update(i, reconcile_snake(world[i], update))) == ids_of(world),
{
    assert(ids_of(world.update(i, reconcile_snake(world[i], update))) =~= ids_of(world));
}

/// Applies the snapshots that were polled this tick, in order.
///
/// Each update overwrites the state of the snake that it names, so the last update of a snake
/// is the one that shows. The first update that names no snake of the world ends the batch
/// with `UnknownSnake`: the updates before it stay applied, the rest is not looked at.
pub fn update_snake_positions(world: &mut World, batch: Option<Vec<SnakePositions>>) -> (res:
    Result<(), ProtocolViolation>)
    ensures
        final(world)@ == positions_reconciled(old(world)@, batch).world,
        res == positions_reconciled(old(world)@, batch).result(),
{
    let packets = match batch {
        Some(packets) => packets,
        None => {
            return Ok(());
        },
    };
    let ghost goal = positions_reconciled(old(world)@, batch);
    let directory = Directory::build(world);
    let mut p: usize = 0;
    assert(packets@.skip(0) == packets@);
    while p < packets.len()
        invariant
            p <= packets.len(),
            goal == positions_reconciled(old(world)@, batch),
            directory.indexes(ids_of(world@)),
            goal == apply_orientations(world@, orientations_of(packets@.skip(p as int))),
        decreases packets.len() - p,
    {
        let packet = &packets[p];
        let ghost later = orientations_of(packets@.skip(p + 1));
        let mut k: usize = 0;
        proof {
            assert(packets@.skip(p as int).drop_first() == packets@.skip(p + 1));
            assert(packet.positions@.skip(0) == packet.positions@);
        }
        while k < packet.positions.len()
            invariant
                k <= packet.positions.len(),
                goal == positions_reconciled(old(world)@, batch),
                directory.indexes(ids_of(world@)),
                goal == apply_orientations(world@, packet.positions@.skip(k as int) + later),
            decreases packet.positions.len() - k,
        {
            let update = &packet.positions[k];
            let ghost rest = packet.positions@.skip(k as int) + later;
            proof {
                assert(rest.first() == *update);
                assert(rest.drop_first() == packet.positions@.skip(k + 1) + later);
                lemma_last_index_of(ids_of(world@), update.id);
            }
            match directory.lookup(update.id) {
                Some(i) => {
                    let ghost before = world@;
                    world.snakes[i].reconcile(update);
                    proof {
                        assert(world@ =~= before.update(
                            i as int,
                            reconcile_snake(before[i as int], *update),
                        ));
                        lemma_reconcile_keeps_ids(before, i as int, *update);
                    }
                },
                None => {
                    return Err(ProtocolViolation::UnknownSnake { id: update.id });
                },
            }
            k += 1;
        }
        proof {
            assert(packet.positions@.skip(k as int) + later == later);
        }
        p += 1;
    }
    Ok(())
}

/// Whether two worlds are alike but for what an update of snake `i` that reports `n` tail
/// positions overwrites: the position and directions of snake `i`, and the positions of its
/// first `n` segments.
spec fn alike_but_overwritten(a: Seq<SnakeView>, b: Seq<SnakeView>, i: int, n: int) -> bool {
    &&& a.len() == b.len()
    &&& 0 <= i < a.len()
    &&& forall|k: int| 0 <= k < a.len() && k != i ==> a[k] == b[k]
    &&& a[i].id == b[i].id
    &&& a[i].color == b[i].color
    &&& a[i].tail.len() == b[i].tail.len()
    &&& forall|j: int| 0 <= j < a[i].tail.len() ==> a[i].tail[j].color == b[i].tail[j].color
    &&& forall|j: int| 0 <= j && n <= j < a[i].tail.len() ==> a[i].tail[j] == b[i].tail[j]
}

/// A world and what an update made of it are alike but for what the update overwrites.
proof fn lemma_update_overwrites_its_own(world: Seq<SnakeView>, update: SnakeOrientation, i: int)
    requires
        last_index_of(ids_of(world), update.id) == Some(i),
    ensures
        alike_but_overwritten(
            apply_orientation(world, update).world,
            world,
            i,
            update.tail_positions@.len() as int,
        ),
{
    lemma_last_index_of(ids_of(world), update.id);
}

/// Worlds that are alike but for what an update overwrites are made one by that update.
proof fn lemma_update_levels(a: Seq<SnakeView>, b: Seq<SnakeView>, update: SnakeOrientation, i: int)
    requires
        last_index_of(ids_of(b), update.id) == Some(i),
        alike_but_overwritten(a, b, i, update.tail_positions@.len() as int),
    ensures
        apply_orientation(a, update) == apply_orientation(b, update),
{
    assert(ids_of(a) =~= ids_of(b));
    let x = reconcile_snake(a[i], update);
    let y = reconcile_snake(b[i], update);
    assert(x.tail =~= y.tail);
    assert(a.update(i, x) =~= b.update(i, y));
}

/// One more update keeps alike two worlds that are alike but for what some update overwrites,
/// and is a violation in both or in neither.
proof fn lemma_step_keeps_alike(
    a: Seq<SnakeView>,
    b: Seq<SnakeView>,
    i: int,
    n: int,
    update: SnakeOrientation,
)
    requires
        alike_but_overwritten(a, b, i, n),
    ensures
        apply_orientation(a, update).violation == apply_orientation(b, update).violation,
        alike_but_overwritten(
            apply_orientation(a, update).world,
            apply_orientation(b, update).world,
            i,
            n,
        ),
{
    assert(ids_of(a) =~= ids_of(b));
    lemma_last_index_of(ids_of(a), update.id);
    match last_index_of(ids_of(a), update.id) {
        Some(t) => {
            let a2 = a.update(t, reconcile_snake(a[t], update));
            let b2 = b.update(t, reconcile_snake(b[t], update));
            assert forall|k: int| 0 <= k < a2.len() && k != i implies a2[k] == b2[k] by {}
            assert forall|j: int| 0 <= j < a2[i].tail.len() implies a2[i].tail[j].color
                == b2[i].tail[j].color by {}
            assert forall|j: int| 0 <= j && n <= j < a2[i].tail.len() implies a2[i].tail[j]
                == b2[i].tail[j] by {}
            assert(alike_but_overwritten(a2, b2, i, n));
        },
        None => {},
    }
}

/// A sequence of updates keeps alike two worlds that are alike but for what some update
/// overwrites, and stops on the same violation in both or in neither.
proof fn lemma_steps_keep_alike(
    a: Seq<SnakeView>,
    b: Seq<SnakeView>,
    i: int,
    n: int,
    updates: Seq<SnakeOrientation>,
)
    requires
        alike_but_overwritten(a, b, i, n),
    ensures
        apply_orientations(a, updates).violation == apply_orientations(b, updates).violation,
        alike_but_overwritten(
            apply_orientations(a, updates).world,
            apply_orientations(b, updates).world,
            i,
            n,
        ),
    decreases updates.len(),
{
    if updates.len() > 0 {
        lemma_step_keeps_alike(a, b, i, n, updates.first());
        if apply_orientation(a, updates.first()).violation is None {
            lemma_steps_keep_alike(
                apply_orientation(a, updates.first()).world,
                apply_orientation(b, updates.first()).world,
                i,
                n,
                updates.drop_first(),
            );
        }
    }
}

/// Applying a sequence of updates and then one more is applying the longer sequence.
pub proof fn lemma_apply_orientations_push(
    world: Seq<SnakeView>,
    updates: Seq<SnakeOrientation>,
    last: SnakeOrientation,
)
    ensures
        apply_orientations(world, updates.push(last)) == (if apply_orientations(
            world,
            updates,
        ).violation is Some {
            apply_orientations(world, updates)
        } else {
            apply_orientation(apply_orientations(world, updates).world, last)
        }),
    decreases updates.len(),
{
    let longer = updates.push(last);
    if updates.len() == 0 {
        let only = apply_orientation(world, last);
        assert(longer.first() == last);
        assert(longer.drop_first().len() == 0);
        assert(apply_orientations(only.world, longer.drop_first()).world == only.world);
    } else {
        assert(longer.first() == updates.first());
        assert(longer.drop_first() =~= updates.drop_first().push(last));
        let first = apply_orientation(world, updates.first());
        if first.violation is None {
            lemma_apply_orientations_push(first.world, updates.drop_first(), last);
        }
    }
}

/// Replaying a sequence of updates on the world that it produced changes nothing: the world
/// stays as it is, and the replay ends as the first run did.
pub proof fn lemma_apply_orientations_idempotent(
    world: Seq<SnakeView>,
    updates: Seq<SnakeOrientation>,
)
    ensures
        apply_orientations(apply_orientations(world, updates).world, updates)
            == apply_orientations(world, updates),
    decreases updates.len(),
{
    if updates.len() > 0 {
        let front = updates.drop_last();
        let last = updates.last();
        assert(updates =~= front.push(last));
        let mid = apply_orientations(world, front);
        let once = apply_orientations(world, updates);
        lemma_apply_orientations_push(world, front, last);
        lemma_apply_orientations_idempotent(world, front);
        lemma_apply_orientations_push(once.world, front, last);
        if mid.violation is None {
            match last_index_of(ids_of(mid.world), last.id) {
                Some(i) => {
                    let n = last.tail_positions@.len() as int;
                    lemma_update_overwrites_its_own(mid.world, last, i);
                    lemma_steps_keep_alike(once.world, mid.world, i, n, front);
                    lemma_update_levels(apply_orientations(once.world, front).world, mid.world, last, i);
                },
                None => {},
            }
        }
    }
}

/// A sequence of updates neither adds nor removes a snake or a segment, and changes no
/// identifier and no color.
pub proof fn lemma_apply_orientations_keeps_shape(
    world: Seq<SnakeView>,
    updates: Seq<SnakeOrientation>,
)
    ensures
        apply_orientations(world, updates).world.len() == world.len(),
        forall|i: int|
            0 <= i < world.len() ==> {
                let before = world[i];
                let after = #[trigger] apply_orientations(world, updates).world[i];
                &&& after.id == before.id
                &&& after.color == before.color
                &&& after.tail.len() == before.tail.len()
                &&& forall|j: int|
                    0 <= j < before.tail.len() ==> #[trigger] after.tail[j].color
                        == before.tail[j].color
            },
    decreases updates.len(),
{
    if updates.len() > 0 {
        let first = apply_orientation(world, updates.first());
        lemma_last_index_of(ids_of(world), updates.first().id);
        if first.violation is None {
            lemma_apply_orientations_keeps_shape(first.world, updates.drop_first());
        }
    }
}

/// Position reconciliation never moves a segment that lies beyond what the server reported:
/// where every update of the batch that reaches snake `i` reports at most `j` tail positions,
/// segment `j` of that snake is after the batch what it was before.
pub proof fn lemma_segments_beyond_report_untouched(
    world: Seq<SnakeView>,
    batch: Option<Vec<SnakePositions>>,
    i: int,
    j: int,
)
    requires
        0 <= i < world.len(),
        0 <= j < world[i].tail.len(),
        batch matches Some(packets) ==> forall|k: int|
            0 <= k < orientations_of(packets@).len() && last_index_of(
                ids_of(world),
                #[trigger] orientations_of(packets@)[k].id,
            ) == Some(i) ==> orientations_of(packets@)[k].tail_positions@.len() <= j,
    ensures
        positions_reconciled(world, batch).world.len() == world.len(),
        positions_reconciled(world, batch).world[i].tail.len() == world[i].tail.len(),
        positions_reconciled(world, batch).world[i].tail[j] == world[i].tail[j],
{
    match batch {
        Some(packets) => {
            lemma_apply_orientations_keeps_shape(world, orientations_of(packets@));
            lemma_updates_spare_segment(world, orientations_of(packets@), i, j);
        },
        None => {},
    }
}

/// The same of a plain sequence of updates, by induction over it.
proof fn lemma_updates_spare_segment(
    world: Seq<SnakeView>,
    updates: Seq<SnakeOrientation>,
    i: int,
    j: int,
)
    requires
        0 <= i < world.len(),
        0 <= j < world[i].tail.len(),
        forall|k: int|
            0 <= k < updates.len() && last_index_of(ids_of(world), #[trigger] updates[k].id)
                == Some(i) ==> updates[k].tail_positions@.len() <= j,
    ensures
        apply_orientations(world, updates).world.len() == world.len(),
        apply_orientations(world, updates).world[i].tail.len() == world[i].tail.len(),
        apply_orientations(world, updates).world[i].tail[j] == world[i].tail[j],
    decreases updates.len(),
{
    if updates.len() > 0 {
        let first = apply_orientation(world, updates.first());
        let rest = updates.drop_first();
        lemma_last_index_of(ids_of(world), updates.first().id);
        if first.violation is None {
            assert(ids_of(first.world) =~= ids_of(world));
            assert forall|k: int|
                0 <= k < rest.len() && last_index_of(ids_of(first.world), #[trigger] rest[k].id)
                    == Some(i) implies rest[k].tail_positions@.len() <= j by {
                assert(rest[k] == updates[k + 1]);
            }
            lemma_updates_spare_segment(first.world, rest, i, j);
        }
    }
}

/// Position reconciliation is idempotent: replaying the batch of a tick on the world that the
/// batch produced leaves that world as it is and ends as the first run did.
pub proof fn lemma_positions_idempotent(world: Seq<SnakeView>, batch: Option<Vec<SnakePositions>>)
    ensures
        positions_reconciled(positions_reconciled(world, batch).world, batch)
            == positions_reconciled(world, batch),
{
    match batch {
        Some(packets) => {
            lemma_apply_orientations_idempotent(world, orientations_of(packets@));
        },
        None => {},
    }
}

} // verus!
