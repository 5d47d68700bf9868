//! Magnetic field sampling: the shared per-particle field accumulator
//! and the order-independence law of field aggregation.

use vstd::prelude::*;
use crate::grid::PrecalculatedMagneticFieldGrid;
use crate::quadrupole::QuadrupoleField3D;
use crate::quadrupole::spec_quadrupole_field;
use crate::sums::sum_contributions;
use crate::sums::lemma_sum_permutation;
use crate::vec3::Vec3;

verus! {

/// The sampled magnetic field at an entity's position: a shared
/// accumulator every magnetic source system adds into.
#[derive(Debug, Clone, Copy, PartialEq, Eq, Structural)]
pub struct MagneticFieldSampler {
    pub field: Vec3,
}

/// One magnetic source entity, of either supported kind.
pub enum MagneticSource {
    Quadrupole { centre: Vec3, field: QuadrupoleField3D },
    Grid { grid: PrecalculatedMagneticFieldGrid },
}

/// The field a single source contributes at `pos`.
pub open spec fn source_field(s: MagneticSource, pos: Vec3) -> (int, int, int) {
    match s {
        MagneticSource::Quadrupole { centre, field } => spec_quadrupole_field(
            pos,
            centre,
            field.gradient as int,
            field.direction,
        ),
        MagneticSource::Grid { grid } => {
            let v = grid.grid@[grid.spec_grid_index(pos)];
            (v.x as int, v.y as int, v.z as int)
        },
    }
}

/// The net sampled field at `pos`: the sum over all sources of that
/// source's field function at `pos`.
pub open spec fn total_source_field(sources: Seq<MagneticSource>, pos: Vec3) -> (int, int, int) {
    sum_contributions(sources, |s: MagneticSource| source_field(s, pos))
}

/// The quadrupole sources of the first `k` entities, in entity order:
/// every entity carrying both a position and a quadrupole descriptor.
pub open spec fn spec_quad_sources(w: crate::ecs::World, k: int) -> Seq<
    (Vec3, QuadrupoleField3D),
>
    decreases k,
{
    if k <= 0 {
        Seq::empty()
    } else {
        let rest = spec_quad_sources(w, k - 1);
        if w.positions@[k - 1] is Some && w.quadrupoles@[k - 1] is Some {
            rest.push((w.positions@[k - 1]->0.pos, w.quadrupoles@[k - 1]->0))
        } else {
            rest
        }
    }
}

/// The field contribution of one quadrupole source at `pos`.
pub open spec fn quad_contrib(pos: Vec3) -> spec_fn((Vec3, QuadrupoleField3D)) -> (
    int,
    int,
    int,
) {
    |s: (Vec3, QuadrupoleField3D)| spec_quadrupole_field(pos, s.0, s.1.gradient as int, s.1.direction)
}

/// The net quadrupole field of the world at `pos`.
pub open spec fn spec_quad_total(w: crate::ecs::World, pos: Vec3) -> (int, int, int) {
    sum_contributions(spec_quad_sources(w, w.n_entities as int), quad_contrib(pos))
}

/// The grid sources among the first `k` slots of the grid arena, in
/// entity order.
pub open spec fn spec_grid_sources(gs: Seq<Option<PrecalculatedMagneticFieldGrid>>, k: int) -> Seq<
    PrecalculatedMagneticFieldGrid,
>
    decreases k,
{
    if k <= 0 {
        Seq::empty()
    } else {
        let rest = spec_grid_sources(gs, k - 1);
        if gs[k - 1] is Some {
            rest.push(gs[k - 1]->0)
        } else {
            rest
        }
    }
}

/// The field contribution of one grid source at `pos`.
pub open spec fn grid_contrib(pos: Vec3) -> spec_fn(PrecalculatedMagneticFieldGrid) -> (
    int,
    int,
    int,
) {
    |g: PrecalculatedMagneticFieldGrid|
        {
            let v = g.grid@[g.spec_grid_index(pos)];
            (v.x as int, v.y as int, v.z as int)
        }
}

/// The net grid field of the world at `pos`.
pub open spec fn spec_grid_total(w: crate::ecs::World, pos: Vec3) -> (int, int, int) {
    sum_contributions(spec_grid_sources(w.grids@, w.n_entities as int), grid_contrib(pos))
}

/// There are no more quadrupole sources than entities.
pub proof fn lemma_quad_sources_len(w: crate::ecs::World, k: int)
    requires
        k >= 0,
    ensures
        spec_quad_sources(w, k).len() <= k,
    decreases k,
{
    if k > 0 {
        lemma_quad_sources_len(w, k - 1);
    }
}

/// There are no more grid sources than arena slots.
pub proof fn lemma_grid_sources_len(gs: Seq<Option<PrecalculatedMagneticFieldGrid>>, k: int)
    requires
        k >= 0,
    ensures
        spec_grid_sources(gs, k).len() <= k,
    decreases k,
{
    if k > 0 {
        lemma_grid_sources_len(gs, k - 1);
    }
}

/// Law: for all magnetic-source sets, permuting the source order leaves
/// the net sampled field exactly unchanged. (Aggregation is associative
/// and commutative integer addition, so the result is not merely within
/// round-off of order independence but equal.)
pub proof fn lemma_field_order_independent(
    s1: Seq<MagneticSource>,
    s2: Seq<MagneticSource>,
    pos: Vec3,
)
    requires
        s1.to_multiset() == s2.to_multiset(),
    ensures
        total_source_field(s1, pos) == total_source_field(s2, pos),
{
    lemma_sum_permutation(s1, s2, |s: MagneticSource| source_field(s, pos));
}

} // verus!
