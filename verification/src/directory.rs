//! The entity directory: a lookup from snake identifier to the snake's place in the world.
//!
//! A directory is built from the live snakes whenever one is needed and is never kept from one
//! tick to the next.

use vstd::prelude::*;
use crate::world::{World, ids_of, last_index_of};

verus! {

/// A lookup from snake identifier to an index into the world, kept in a
/// `bevy::utils::HashMap`.
///
/// The map is opaque to the verifier. What it holds is spoken of as [`directory_entries`],
/// and the three functions below that touch the map are believed, not proved, to do to those
/// entries what the map's own documentation says.
#[verifier::external_body]
pub struct Directory {
    map: bevy::utils::HashMap<u32, usize>,
}

/// The identifier-index pairs that a directory holds.
pub uninterp spec fn directory_entries(dir: Directory) -> Map<u32, usize>;

/// Calls `bevy::utils::HashMap::new`, which is hashbrown's `HashMap::new`. Believed: the map
/// that it returns holds nothing.
#[verifier::external_body]
fn directory_new() -> (dir: Directory)
    ensures
        (directory_entries(dir) == Map::<u32, usize>::empty()),
{
    Directory { map: bevy::utils::HashMap::new() }
}

/// Calls `insert` of `bevy::utils::HashMap`, which is hashbrown's `HashMap::insert`.
/// Believed: afterwards the key maps to the new value and every other key is as before, and
/// the value that the key had before, if any, is returned.
#[verifier::external_body]
fn directory_insert(dir: &mut Directory, id: u32, index: usize) -> (previous: Option<usize>)
    ensures
        directory_entries(*final(dir)) == directory_entries(*old(dir)).insert(id, index),
        previous == (if directory_entries(*old(dir)).contains_key(id) {
            Some(directory_entries(*old(dir))[id])
        } else {
            None
        }),
{
    dir.map.insert(id, index)
}

/// Calls `get` of `bevy::utils::HashMap`, which is hashbrown's `HashMap::get`. Believed: it
/// returns the value stored under the key, and nothing where the map does not hold the key.
#[verifier::external_body]
fn directory_get(dir: &Directory, id: u32) -> (found: Option<usize>)
    ensures
        found == (if directory_entries(*dir).contains_key(id) {
            Some(directory_entries(*dir)[id])
        } else {
            None
        }),
{
    dir.map.get(&id).copied()
}

impl Directory {
    /// The index stored under `id`, if any.
    pub open spec fn spec_lookup(self, id: u32) -> Option<usize> {
        if directory_entries(self).contains_key(id) {
            Some(directory_entries(self)[id])
        } else {
            None
        }
    }

    /// Whether the directory answers for a world whose snakes carry the identifiers `ids`:
    /// every identifier leads to the last snake that carries it, and to nothing where no snake
    /// does.
    pub open spec fn indexes(self, ids: Seq<u32>) -> bool {
        forall|id: u32|
            match #[trigger] self.spec_lookup(id) {
                Some(i) => last_index_of(ids, id) == Some(i as int),
                None => last_index_of(ids, id) is None,
            }
    }

    /// Builds the directory of the snakes that are in `world`.
    ///
    /// Where several snakes carry one identifier, the last of them is the one found.
    pub fn build(world: &World) -> (dir: Directory)
        ensures
            dir.indexes(ids_of(world@)),
    {
        let mut dir = directory_new();
        let mut k: usize = 0;
        while k < world.snakes.len()
            invariant
                k <= world.snakes.len(),
                dir.indexes(ids_of(world@).take(k as int)),
            decreases world.snakes.len() - k,
        {
            let ghost before = dir;
            let ghost ids = ids_of(world@);
            let id = world.snakes[k].head.id;
            directory_insert(&mut dir, id, k);
            proof {
                assert(ids.take(k + 1).drop_last() == ids.take(k as int));
                assert(ids.take(k + 1).last() == id);
                assert forall|other: u32|
                    match #[trigger] dir.spec_lookup(other) {
                        Some(i) => last_index_of(ids.take(k + 1), other) == Some(i as int),
                        None => last_index_of(ids.take(k + 1), other) is None,
                    } by {
                    if other != id {
                        assert(dir.spec_lookup(other) == before.spec_lookup(other));
                    }
                }
            }
            k += 1;
        }
        proof {
            assert(ids_of(world@).take(k as int) == ids_of(world@));
        }
        dir
    }

    /// Looks `id` up.
    pub fn lookup(&self, id: u32) -> (found: Option<usize>)
        ensures
            found == self.spec_lookup(id),
    {
        directory_get(self, id)
    }
}

} // verus!
