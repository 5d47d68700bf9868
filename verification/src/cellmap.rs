//! The per-tick cell map: a hash map from cell id to `PartitionCell`.
//!
//! The map itself is `hashbrown::HashMap`; this module declares the type
//! to the verifier and wraps the few operations the partition builder
//! uses. Each wrapper's contract speaks of the abstract contents
//! `cell_map_contents`, a map from cell id to the view of the stored
//! cell; hashbrown's iteration order is seeded per process, so the id
//! list wrapper promises a duplicate-free enumeration of the key set and
//! nothing about order.

use vstd::prelude::*;
use crate::atom::Velocity;
use crate::partition::PartitionCell;

verus! {

#[verifier::external_type_specification]
#[verifier::external_body]
#[verifier::reject_recursive_types(K)]
#[verifier::reject_recursive_types(V)]
#[verifier::reject_recursive_types(S)]
pub struct ExHashMap<K, V, S>(hashbrown::HashMap<K, V, S>);

#[verifier::external_type_specification]
#[verifier::external_body]
pub struct ExDefaultHashBuilder(hashbrown::hash_map::DefaultHashBuilder);

/// The view of one velocity: its three fixed-point components.
pub open spec fn vel_view(v: Velocity) -> (int, int, int) {
    (v.vel.x as int, v.vel.y as int, v.vel.z as int)
}

/// The view of a stored cell: its velocity list and its six statistics
/// fields.
pub open spec fn cell_view(c: PartitionCell) -> (Seq<(int, int, int)>, int, int, int, int, int, int) {
    (
        c.velocities@.map_values(|v: Velocity| vel_view(v)),
        c.expected_collision_number as int,
        c.collision_number as int,
        c.density as int,
        c.volume as int,
        c.atom_number as int,
        c.particle_number as int,
    )
}

/// The contents of a map with nothing in it.
pub open spec fn empty_contents() -> Map<int, (Seq<(int, int, int)>, int, int, int, int, int, int)> {
    Map::empty()
}

/// What the hash map holds: the view of the stored cell for each stored
/// cell id.
pub uninterp spec fn cell_map_contents(
    m: hashbrown::HashMap<i64, PartitionCell, hashbrown::hash_map::DefaultHashBuilder>,
) -> Map<int, (Seq<(int, int, int)>, int, int, int, int, int, int)>;

/// Relies on `hashbrown::HashMap::new`: a fresh map is empty.
#[verifier::external_body]
pub fn cell_map_new() -> (r: hashbrown::HashMap<i64, PartitionCell>)
    ensures
        cell_map_contents(r) == empty_contents(),
{
    hashbrown::HashMap::new()
}

/// Relies on `hashbrown::HashMap::insert`: after the call the key holds
/// exactly the given value, and no other key changed.
#[verifier::external_body]
pub fn cell_map_insert(
    m: &mut hashbrown::HashMap<i64, PartitionCell>,
    id: i64,
    cell: PartitionCell,
)
    ensures
        cell_map_contents(*final(m)) == cell_map_contents(*old(m)).insert(
            id as int,
            cell_view(cell),
        ),
{
    m.insert(id, cell);
}

/// Relies on `hashbrown::HashMap::remove`: the stored value for the key
/// is moved out, and no other key changed.
#[verifier::external_body]
pub fn cell_map_remove(m: &mut hashbrown::HashMap<i64, PartitionCell>, id: i64) -> (r: Option<
    PartitionCell,
>)
    ensures
        match r {
            Some(cell) => {
                &&& cell_map_contents(*old(m)).dom().contains(id as int)
                &&& cell_view(cell) == cell_map_contents(*old(m))[id as int]
                &&& cell_map_contents(*final(m)) == cell_map_contents(*old(m)).remove(id as int)
            },
            None => {
                &&& !cell_map_contents(*old(m)).dom().contains(id as int)
                &&& cell_map_contents(*final(m)) == cell_map_contents(*old(m))
            },
        },
{
    m.remove(&id)
}

/// Relies on `hashbrown::HashMap::get`: a borrow of the stored value for
/// the key, if any.
#[verifier::external_body]
pub fn cell_map_get<'a>(
    m: &'a hashbrown::HashMap<i64, PartitionCell>,
    id: i64,
) -> (r: Option<&'a PartitionCell>)
    ensures
        match r {
            Some(cell) => {
                &&& cell_map_contents(*m).dom().contains(id as int)
                &&& cell_view(*cell) == cell_map_contents(*m)[id as int]
            },
            None => !cell_map_contents(*m).dom().contains(id as int),
        },
{
    m.get(&id)
}

/// Relies on `hashbrown::HashMap::keys`: one entry per stored key, in an
/// unspecified (per-process seeded) order.
#[verifier::external_body]
pub fn cell_map_ids(m: &hashbrown::HashMap<i64, PartitionCell>) -> (r: Vec<i64>)
    ensures
        r@.len() == cell_map_contents(*m).dom().len(),
        forall|i: int, j: int| 0 <= i < j < r@.len() ==> r@[i] != r@[j],
        cell_map_contents(*m).dom() == r@.map_values(|x: i64| x as int).to_set(),
{
    m.keys().cloned().collect()
}

} // verus!
