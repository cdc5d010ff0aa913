//! The set of live snakes, and how a snake is found in it by identifier.

use vstd::prelude::*;
use crate::components::{Snake, SnakeView};
use crate::error::ProtocolViolation;

verus! {

/// Every snake that the client knows of, in the order in which they were spawned.
#[derive(Clone, Debug, PartialEq, Eq)]
pub struct World {
    pub snakes: Vec<Snake>,
}

impl View for World {
    type V = Seq<SnakeView>;

    open spec fn view(&self) -> Seq<SnakeView> {
        self.snakes@.map_values(|s: Snake| s@)
    }
}

impl World {
    /// Creates a world without snakes.
    pub fn new() -> (world: World)
        ensures
            world@ == Seq::<SnakeView>::empty(),
    {
        World { snakes: Vec::new() }
    }
}

/// What reconciling a batch comes to: the world as it is left, and the violation that stopped
/// the batch, if one did.
pub struct Reconciled {
    pub world: Seq<SnakeView>,
    pub violation: Option<ProtocolViolation>,
}

impl Reconciled {
    /// The result that the caller of a reconciliation routine gets.
    pub open spec fn result(self) -> Result<(), ProtocolViolation> {
        match self.violation {
            Some(violation) => Err(violation),
            None => Ok(()),
        }
    }
}

/// The identifiers of the snakes, in world order.
pub open spec fn ids_of(snakes: Seq<SnakeView>) -> Seq<u32> {
    snakes.map_values(|s: SnakeView| s.id)
}

/// The greatest index at which `id` occurs in `ids`, if it occurs at all.
pub open spec fn last_index_of(ids: Seq<u32>, id: u32) -> Option<int>
    decreases ids.len(),
{
    if ids.len() == 0 {
        None
    } else if ids.last() == id {
        Some(ids.len() - 1)
    } else {
        last_index_of(ids.drop_last(), id)
    }
}

/// The least index at which `id` occurs in `ids`, if it occurs at all.
pub open spec fn first_index_of(ids: Seq<u32>, id: u32) -> Option<int>
    decreases ids.len(),
{
    if ids.len() == 0 {
        None
    } else if ids.first() == id {
        Some(0)
    } else {
        match first_index_of(ids.drop_first(), id) {
            Some(i) => Some(i + 1),
            None => None,
        }
    }
}

/// What `last_index_of` finds is an occurrence of `id`, no occurrence follows it, and it finds
/// nothing only where `id` does not occur.
pub proof fn lemma_last_index_of(ids: Seq<u32>, id: u32)
    ensures
        match last_index_of(ids, id) {
            Some(i) => 0 <= i < ids.len() && ids[i] == id && forall|j: int|
                i < j < ids.len() ==> ids[j] != id,
            None => forall|j: int| 0 <= j < ids.len() ==> ids[j] != id,
        },
    decreases ids.len(),
{
    if ids.len() > 0 && ids.last() != id {
        let front = ids.drop_last();
        lemma_last_index_of(front, id);
        assert(forall|j: int| 0 <= j < front.len() ==> front[j] == ids[j]);
    }
}

/// What `first_index_of` finds is an occurrence of `id`, no occurrence precedes it, and it
/// finds nothing only where `id` does not occur.
pub proof fn lemma_first_index_of(ids: Seq<u32>, id: u32)
    ensures
        match first_index_of(ids, id) {
            Some(i) => 0 <= i < ids.len() && ids[i] == id && forall|j: int|
                0 <= j < i ==> ids[j] != id,
            None => forall|j: int| 0 <= j < ids.len() ==> ids[j] != id,
        },
    decreases ids.len(),
{
    if ids.len() > 0 && ids.first() != id {
        let rest = ids.drop_first();
        lemma_first_index_of(rest, id);
        assert(forall|j: int| 0 <= j < rest.len() ==> rest[j] == ids[j + 1]);
        match first_index_of(rest, id) {
            Some(i) => {
                assert forall|j: int| 0 <= j < i + 1 implies ids[j] != id by {
                    if j > 0 {
                        assert(rest[j - 1] == ids[j]);
                    }
                }
            },
            None => {
                assert forall|j: int| 0 <= j < ids.len() implies ids[j] != id by {
                    if j > 0 {
                        assert(rest[j - 1] == ids[j]);
                    }
                }
            },
        }
    }
}

} // verus!
