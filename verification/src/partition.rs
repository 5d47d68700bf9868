//! Build spatial hashmap of atoms.
//!
//! Spatially partition the atoms and construct a hashmap that assigns
//! each atom to a unique cell. This creates a discretised density
//! distribution for use by other systems, e.g. two-body collisions.
//! Cells form a cubic lattice of `box_number^3` cells of edge
//! `box_width`, centred at the origin; atoms outside the lattice get a
//! reserved sentinel id and are excluded from the statistics.

use vstd::prelude::*;
use crate::atom::Velocity;
use crate::fixed::MAXB;
use crate::fixed::MAXQ;
use crate::fixed::UNIT;
use crate::fixed::floor_div128;
use crate::fixed::icbrt128;
use crate::fixed::is_cbrt_of;
use crate::vec3::Vec3;

verus! {

/// The id handed to atoms that lie outside the lattice: they are too
/// sparse to collide and are disregarded by the statistics.
pub const SENTINEL_ID: i64 = i64::MAX;

/// Largest number of cells per lattice side the id computation accepts.
pub const MAX_BOX_NUMBER: i64 = 1_048_576;

/// Component that marks which box an atom is in for spatial
/// partitioning.
#[derive(Debug, Clone, Copy, PartialEq, Eq, Structural)]
pub struct BoxID {
    /// ID of the box.
    pub id: i64,
}

/// A partition of space that contains atoms. The statistics fields are
/// fixed-point values; `particle_number` and `collision_number` are
/// plain counts.
#[derive(Debug, Clone)]
pub struct PartitionCell {
    pub velocities: Vec<Velocity>,
    pub expected_collision_number: i64,
    pub collision_number: i64,
    pub density: i64,
    pub volume: i64,
    pub atom_number: i64,
    pub particle_number: i64,
}

impl Default for PartitionCell {
    /// An empty cell with zeroed statistics.
    fn default() -> (r: Self)
        ensures
            r.velocities@.len() == 0,
            r.expected_collision_number == 0,
            r.collision_number == 0,
            r.density == 0,
            r.volume == 0,
            r.atom_number == 0,
            r.particle_number == 0,
    {
        PartitionCell {
            velocities: Vec::new(),
            expected_collision_number: 0,
            collision_number: 0,
            density: 0,
            volume: 0,
            atom_number: 0,
            particle_number: 0,
        }
    }
}

impl PartitionCell {
    /// Count particles in this cell.
    pub fn count_particles(&mut self)
        requires
            old(self).velocities@.len() <= i64::MAX,
        ensures
            final(self).particle_number == old(self).velocities@.len(),
            final(self).velocities == old(self).velocities,
            final(self).expected_collision_number == old(self).expected_collision_number,
            final(self).collision_number == old(self).collision_number,
            final(self).density == old(self).density,
            final(self).volume == old(self).volume,
            final(self).atom_number == old(self).atom_number,
    {
        self.particle_number = self.velocities.len() as i64;
    }
}

/// Resource for defining spatial partitioning parameters. Space is
/// divided into many small cubes of width `box_width`, and there are
/// `box_number` of them along each axis, constituting a large cube of
/// volume `(box_number * box_width)^3`.
#[derive(Debug, Clone, Copy, PartialEq, Eq, Structural)]
pub struct PartitionParameters {
    /// Number of boxes per side in spatial binning.
    pub box_number: i64,
    /// Width of one box, fixed-point metres.
    pub box_width: i64,
    /// Target density: the number of particles per cell the system aims
    /// to maintain, fixed-point.
    pub target_density: i64,
}

impl PartitionParameters {
    /// Parameters the partition kernels accept: a positive lattice of
    /// bounded size and a positive target density inside the universal
    /// stored-value bound.
    pub open spec fn valid(self) -> bool {
        &&& 1 <= self.box_number <= MAX_BOX_NUMBER
        &&& 1 <= self.box_width <= MAXQ
        &&& 1 <= self.target_density <= MAXQ
    }
}

impl Default for PartitionParameters {
    /// One hundred boxes per side, one millimetre wide, thirty particles
    /// per cell.
    fn default() -> (r: Self)
        ensures
            r.box_number == 100,
            r.box_width == 1_000,
            r.target_density == 30 * (UNIT as int),
            r.valid(),
    {
        PartitionParameters { box_number: 100, box_width: 1_000, target_density: 30 * UNIT }
    }
}

/// The lattice coordinate of one axis: `floor(p / width + box_number / 2)`,
/// computed exactly as `floor((2 p + n w) / (2 w))`.
pub open spec fn spec_axis_coord(p: int, n: int, w: int) -> int {
    (2 * p + n * w) / (2 * w)
}

/// The cell id of a position: the flattened lattice coordinate
/// `ix + n * iy + n^2 * iz` when every axis coordinate lies in `[0, n)`,
/// and the sentinel id otherwise.
pub open spec fn spec_pos_to_id(pos: Vec3, n: int, w: int) -> int {
    let ix = spec_axis_coord(pos.x as int, n, w);
    let iy = spec_axis_coord(pos.y as int, n, w);
    let iz = spec_axis_coord(pos.z as int, n, w);
    if 0 <= ix < n && 0 <= iy < n && 0 <= iz < n {
        ix + n * iy + n * n * iz
    } else {
        SENTINEL_ID as int
    }
}

/// One axis coordinate of the lattice.
fn axis_coord(p: i64, n: i64, w: i64) -> (r: i64)
    requires
        -MAXQ <= p <= MAXQ,
        1 <= n <= MAX_BOX_NUMBER,
        1 <= w <= MAXQ,
    ensures
        r == spec_axis_coord(p as int, n as int, w as int),
        -(2 * MAXQ as int) <= r <= 2 * (MAXQ as int) + MAX_BOX_NUMBER,
{
    proof {
        assert(0 < n as int * w as int <= MAX_BOX_NUMBER as int * MAXQ as int)
            by (nonlinear_arith)
            requires 1 <= n <= MAX_BOX_NUMBER && 1 <= w <= MAXQ;
    }
    let num: i128 = 2 * (p as i128) + (n as i128) * (w as i128);
    let den: i128 = 2 * (w as i128);
    proof {
        let m: int = 2 * (MAXQ as int) + MAX_BOX_NUMBER as int;
        assert(-(m * (2 * w as int)) <= num as int <= m * (2 * w as int)) by (nonlinear_arith)
            requires
                num as int == 2 * (p as int) + n as int * w as int && -MAXQ <= p <= MAXQ && 1
                    <= n <= MAX_BOX_NUMBER && 1 <= w <= MAXQ && m == 2 * (MAXQ as int)
                    + MAX_BOX_NUMBER as int;
        crate::fixed::lemma_div_range(num as int, 2 * (w as int), m);
    }
    let q: i128 = floor_div128(num, den);
    q as i64
}

/// Maps a position to its cell id: the flattened lattice coordinate, or
/// the sentinel id for atoms outside the lattice. The id of an in-range
/// position is a pure function of position, box width and box count
/// alone, and lies in `[0, box_number^3)`.
pub fn pos_to_id(pos: Vec3, n: i64, width: i64) -> (r: i64)
    requires
        pos.in_range(),
        1 <= n <= MAX_BOX_NUMBER,
        1 <= width <= MAXQ,
    ensures
        r == spec_pos_to_id(pos, n as int, width as int),
        r == SENTINEL_ID || 0 <= r < n * n * n,
{
    let xp = axis_coord(pos.x, n, width);
    let yp = axis_coord(pos.y, n, width);
    let zp = axis_coord(pos.z, n, width);
    if 0 <= xp && xp < n && 0 <= yp && yp < n && 0 <= zp && zp < n {
        proof {
            assert(0 <= n as int * n as int <= (MAX_BOX_NUMBER as int) * (MAX_BOX_NUMBER as int))
                by (nonlinear_arith)
                requires 1 <= n <= MAX_BOX_NUMBER;
            assert(0 <= n as int * yp as int <= (MAX_BOX_NUMBER as int) * (MAX_BOX_NUMBER as int))
                by (nonlinear_arith)
                requires 0 <= yp < n && 1 <= n <= MAX_BOX_NUMBER;
            assert(0 <= (n as int * n as int) * zp as int <= (MAX_BOX_NUMBER as int) * (
            MAX_BOX_NUMBER as int) * (MAX_BOX_NUMBER as int)) by (nonlinear_arith)
                requires 0 <= zp < n && 1 <= n <= MAX_BOX_NUMBER;
            assert((MAX_BOX_NUMBER as int) * (MAX_BOX_NUMBER as int) * (MAX_BOX_NUMBER as int)
                < i64::MAX) by (nonlinear_arith);
            assert(xp + n as int * yp as int + (n as int * n as int) * (zp as int) < (n as int)
                * (n as int) * (n as int)) by (nonlinear_arith)
                requires 0 <= xp < n && 0 <= yp < n && 0 <= zp < n && n >= 1;
        }
        xp + n * yp + (n * n) * zp
    } else {
        SENTINEL_ID
    }
}

/// The least value of a non-empty list.
pub open spec fn seq_min(s: Seq<i64>) -> int
    recommends
        s.len() >= 1,
    decreases s.len(),
{
    if s.len() <= 1 {
        s[0] as int
    } else {
        let m = seq_min(s.drop_last());
        if s.last() < m {
            s.last() as int
        } else {
            m
        }
    }
}

/// The greatest value of a non-empty list.
pub open spec fn seq_max(s: Seq<i64>) -> int
    recommends
        s.len() >= 1,
    decreases s.len(),
{
    if s.len() <= 1 {
        s[0] as int
    } else {
        let m = seq_max(s.drop_last());
        if s.last() > m {
            s.last() as int
        } else {
            m
        }
    }
}

/// The smallest element of a non-empty list.
pub fn get_min(x: &Vec<i64>) -> (r: i64)
    requires
        x@.len() >= 1,
    ensures
        r == seq_min(x@),
        forall|i: int| 0 <= i < x@.len() ==> r <= #[trigger] x@[i],
        exists|i: int| 0 <= i < x@.len() && r == x@[i],
{
    let mut r: i64 = x[0];
    let mut k: usize = 1;
    while k < x.len()
        invariant
            1 <= k <= x@.len(),
            r == seq_min(x@.subrange(0, k as int)),
            forall|i: int| 0 <= i < k ==> r <= #[trigger] x@[i],
            exists|i: int| 0 <= i < k && r == x@[i],
        decreases x@.len() - k,
    {
        proof {
            assert(x@.subrange(0, k + 1).drop_last() =~= x@.subrange(0, k as int));
            assert(x@.subrange(0, k + 1).last() == x@[k as int]);
        }
        if x[k] < r {
            r = x[k];
        }
        k = k + 1;
    }
    proof {
        assert(x@.subrange(0, x@.len() as int) =~= x@);
    }
    r
}

/// The largest element of a non-empty list.
pub fn get_max(x: &Vec<i64>) -> (r: i64)
    requires
        x@.len() >= 1,
    ensures
        r == seq_max(x@),
        forall|i: int| 0 <= i < x@.len() ==> r >= #[trigger] x@[i],
        exists|i: int| 0 <= i < x@.len() && r == x@[i],
{
    let mut r: i64 = x[0];
    let mut k: usize = 1;
    while k < x.len()
        invariant
            1 <= k <= x@.len(),
            r == seq_max(x@.subrange(0, k as int)),
            forall|i: int| 0 <= i < k ==> r >= #[trigger] x@[i],
            exists|i: int| 0 <= i < k && r == x@[i],
        decreases x@.len() - k,
    {
        proof {
            assert(x@.subrange(0, k + 1).drop_last() =~= x@.subrange(0, k as int));
            assert(x@.subrange(0, k + 1).last() == x@[k as int]);
        }
        if x[k] > r {
            r = x[k];
        }
        k = k + 1;
    }
    proof {
        assert(x@.subrange(0, x@.len() as int) =~= x@);
    }
    r
}

/// The width rescaling step: the cell volume is scaled by
/// `target_density / average`, so the width is scaled by the cube root
/// of that ratio, and clamped back into the accepted range.
pub open spec fn spec_rescaled_width(width: int, target: int, ratio_root: int) -> int {
    let w = width * ratio_root / (UNIT as int);
    if w < 1 {
        1
    } else if w > MAXQ {
        MAXQ as int
    } else {
        w
    }
}

/// Computes the rescaled box width from the target density and the
/// average number of particles per occupied cell (both fixed-point).
/// The caller guards the degenerate case of an empty cell set.
pub fn rescaled_width(width: i64, target: i64, average: i64) -> (r: (i64, Ghost<int>))
    requires
        1 <= width <= MAXQ,
        1 <= target <= MAXQ,
        1 <= average,
    ensures
        is_cbrt_of(
            ((target * (UNIT as int)) / (average as int)) * (UNIT as int) * (UNIT as int),
            r.1@,
        ),
        r.0 == spec_rescaled_width(width as int, target as int, r.1@),
        1 <= r.0 <= MAXQ,
{
    proof {
        assert(0 <= target as int * UNIT as int <= (MAXQ as int) * (UNIT as int))
            by (nonlinear_arith)
            requires 1 <= target <= MAXQ;
    }
    let ratio: i128 = floor_div128((target as i128) * (UNIT as i128), average as i128);
    proof {
        assert(0 <= ratio as int * (UNIT as int) <= ((MAXQ as int) * (UNIT as int)) * (
        UNIT as int)) by (nonlinear_arith)
            requires 0 <= ratio <= (MAXQ as int) * (UNIT as int);
        assert(0 <= (ratio as int * (UNIT as int)) * (UNIT as int) <= (((MAXQ as int) * (
        UNIT as int)) * (UNIT as int)) * (UNIT as int)) by (nonlinear_arith)
            requires 0 <= ratio as int * (UNIT as int) <= ((MAXQ as int) * (UNIT as int))
                * (UNIT as int);
        assert((((MAXQ as int) * (UNIT as int)) * (UNIT as int)) * (UNIT as int)
            < 0x2000_0000_0000_0000_0000_0000) by {
            assert((MAXQ as int) * (UNIT as int) == 1073741824000000) by (nonlinear_arith);
            assert((1073741824000000 as int) * (UNIT as int) == 1073741824000000000000)
                by (nonlinear_arith);
            assert((1073741824000000000000 as int) * (UNIT as int)
                == 1073741824000000000000000000) by (nonlinear_arith);
        };
    }
    let scaled: i128 = ratio * (UNIT as i128) * (UNIT as i128);
    let root: i128 = icbrt128(scaled);
    proof {
        assert(0 <= width as int * root as int <= (MAXQ as int) * 0x8000_0000)
            by (nonlinear_arith)
            requires 1 <= width <= MAXQ && 0 <= root < 0x8000_0000;
        assert((MAXQ as int) * 0x8000_0000 <= 0x7fff_ffff_ffff_ffff * (UNIT as int))
            by (nonlinear_arith);
        crate::fixed::lemma_div_range(
            width as int * root as int,
            UNIT as int,
            0x7fff_ffff_ffff_ffff,
        );
    }
    let w128: i128 = (width as i128) * root;
    let w: i128 = floor_div128(w128, UNIT as i128);
    let wr: i64 = if w < 1 {
        1
    } else if w > MAXQ as i128 {
        MAXQ
    } else {
        w as i64
    };
    (wr, Ghost(root as int))
}

/// Ceiling division of non-negative bounded values, used to recompute
/// the box count from the bounding-box extent and the new width.
pub fn ceil_div(a: i64, b: i64) -> (r: i64)
    requires
        0 <= a <= 4 * (MAXQ as int),
        1 <= b,
    ensures
        r == (a + b - 1) as int / (b as int),
        0 <= r <= 4 * (MAXQ as int),
{
    let num: i128 = (a as i128) + (b as i128) - 1;
    proof {
        assert(num as int <= (4 * (MAXQ as int)) * (b as int)) by (nonlinear_arith)
            requires num as int == a + b - 1 && 0 <= a <= 4 * (MAXQ as int) && 1 <= b;
        crate::fixed::lemma_div_range(num as int, b as int, 4 * (MAXQ as int));
    }
    let q: i128 = floor_div128(num, b as i128);
    q as i64
}

/// The velocities (as component triples, in entity order) of the
/// particles of `ps` whose position maps to cell `id`.
pub open spec fn spec_group_vels(ps: Seq<(Vec3, Vec3)>, n: int, w: int, id: int) -> Seq<
    (int, int, int),
>
    decreases ps.len(),
{
    if ps.len() == 0 {
        Seq::empty()
    } else {
        let rest = spec_group_vels(ps.drop_last(), n, w, id);
        if spec_pos_to_id(ps.last().0, n, w) == id {
            rest.push((ps.last().1.x as int, ps.last().1.y as int, ps.last().1.z as int))
        } else {
            rest
        }
    }
}

/// A cell holds no more velocities than there are particles.
pub proof fn lemma_group_len(ps: Seq<(Vec3, Vec3)>, n: int, w: int, id: int)
    ensures
        spec_group_vels(ps, n, w, id).len() <= ps.len(),
    decreases ps.len(),
{
    if ps.len() > 0 {
        lemma_group_len(ps.drop_last(), n, w, id);
    }
}

/// The partition of one tick, as an abstract map: every cell id that at
/// least one in-extent particle maps to holds that cell's velocity list
/// and occupancy; sentinel-tagged particles appear nowhere.
pub open spec fn spec_partition_map(ps: Seq<(Vec3, Vec3)>, n: int, w: int) -> Map<
    int,
    (Seq<(int, int, int)>, int, int, int, int, int, int),
> {
    Map::new(
        |id: int| id != SENTINEL_ID && spec_group_vels(ps, n, w, id).len() > 0,
        |id: int|
            (
                spec_group_vels(ps, n, w, id),
                0,
                0,
                0,
                0,
                0,
                spec_group_vels(ps, n, w, id).len() as int,
            ),
    )
}

/// The aggregation pass: groups the (position, velocity) pairs of the
/// live atoms by cell id, skipping sentinel-tagged atoms, and records
/// each cell's occupancy.
pub fn build_cells(ps: &Vec<(Vec3, Vec3)>, n: i64, width: i64) -> (m: hashbrown::HashMap<
    i64,
    PartitionCell,
>)
    requires
        1 <= n <= MAX_BOX_NUMBER,
        1 <= width <= MAXQ,
        ps@.len() < 0x4000_0000,
        forall|i: int| 0 <= i < ps@.len() ==> (#[trigger] ps@[i]).0.in_range(),
    ensures
        crate::cellmap::cell_map_contents(m) == spec_partition_map(ps@, n as int, width as int),
{
    let ghost ni = n as int;
    let ghost wi = width as int;
    let mut m = crate::cellmap::cell_map_new();
    proof {
        assert(ps@.subrange(0, 0) =~= Seq::<(Vec3, Vec3)>::empty());
        assert(crate::cellmap::cell_map_contents(m) =~= spec_partition_map(
            ps@.subrange(0, 0),
            ni,
            wi,
        ));
    }
    let len = ps.len();
    let mut k: usize = 0;
    while k < len
        invariant
            0 <= k <= len,
            len == ps@.len() < 0x4000_0000,
            1 <= n <= MAX_BOX_NUMBER,
            1 <= width <= MAXQ,
            ni == n as int,
            wi == width as int,
            forall|i: int| 0 <= i < ps@.len() ==> (#[trigger] ps@[i]).0.in_range(),
            crate::cellmap::cell_map_contents(m) == spec_partition_map(
                ps@.subrange(0, k as int),
                ni,
                wi,
            ),
        decreases len - k,
    {
        let ghost prefix = ps@.subrange(0, k as int);
        let ghost prefix1 = ps@.subrange(0, k as int + 1);
        proof {
            assert(prefix1.drop_last() =~= prefix);
            assert(prefix1.last() == ps@[k as int]);
        }
        let pair = ps[k];
        let id = pos_to_id(pair.0, n, width);
        if id != SENTINEL_ID {
            let removed = crate::cellmap::cell_map_remove(&mut m, id);
            let ghost old_group = spec_group_vels(prefix, ni, wi, id as int);
            let mut cell: PartitionCell;
            match removed {
                Some(c) => {
                    cell = c;
                },
                None => {
                    cell = PartitionCell::default();
                    proof {
                        assert(cell.velocities@.map_values(|v: Velocity| crate::cellmap::vel_view(v))
                            =~= old_group);
                    }
                },
            }
            proof {
                lemma_group_len(prefix, ni, wi, id as int);
                assert(cell.velocities@.map_values(|v: Velocity| crate::cellmap::vel_view(v)).len()
                    == old_group.len());
            }
            cell.velocities.push(Velocity { vel: pair.1 });
            cell.count_particles();
            crate::cellmap::cell_map_insert(&mut m, id, cell);
            proof {
                let vv = (pair.1.x as int, pair.1.y as int, pair.1.z as int);
                assert(cell.velocities@.map_values(|v: Velocity| crate::cellmap::vel_view(v))
                    =~= old_group.push(vv));
                assert(spec_group_vels(prefix1, ni, wi, id as int) == old_group.push(vv));
                assert forall|id2: int| id2 != id as int implies spec_group_vels(
                    prefix1,
                    ni,
                    wi,
                    id2,
                ) == spec_group_vels(prefix, ni, wi, id2) by {
                }
                assert(crate::cellmap::cell_map_contents(m) =~= spec_partition_map(
                    prefix1,
                    ni,
                    wi,
                ));
            }
        } else {
            proof {
                assert forall|id2: int| id2 != SENTINEL_ID implies spec_group_vels(
                    prefix1,
                    ni,
                    wi,
                    id2,
                ) == spec_group_vels(prefix, ni, wi, id2) by {
                }
                assert(crate::cellmap::cell_map_contents(m) =~= spec_partition_map(
                    prefix1,
                    ni,
                    wi,
                ));
            }
        }
        k = k + 1;
    }
    proof {
        assert(ps@.subrange(0, len as int) =~= ps@);
    }
    m
}

/// The per-tick hashmap of cells, fully rebuilt every tick; only the
/// adaptive parameters persist across ticks.
pub struct VelocityHashmap {
    /// Hashmap of velocities of atoms, keyed by cell id.
    pub hashmap: hashbrown::HashMap<i64, PartitionCell>,
}

impl Default for VelocityHashmap {
    /// An empty map.
    fn default() -> (r: Self)
        ensures
            crate::cellmap::cell_map_contents(r.hashmap) == crate::cellmap::empty_contents(),
    {
        VelocityHashmap { hashmap: crate::cellmap::cell_map_new() }
    }
}

/// The three coordinate lists of the live atoms have the same length.
proof fn lemma_coords_same_len(w: crate::ecs::World, k: int)
    ensures
        spec_atom_coords(w, k, 1).len() == spec_atom_coords(w, k, 0).len(),
        spec_atom_coords(w, k, 2).len() == spec_atom_coords(w, k, 0).len(),
    decreases k,
{
    if k > 0 {
        lemma_coords_same_len(w, k - 1);
    }
}

/// The least and greatest values of a non-empty bounded list are
/// bounded.
proof fn lemma_minmax_range(s: Seq<i64>)
    requires
        s.len() >= 1,
        forall|l: int| 0 <= l < s.len() ==> -MAXQ <= #[trigger] s[l] <= MAXQ,
    ensures
        -MAXQ <= seq_min(s) <= MAXQ,
        -MAXQ <= seq_max(s) <= MAXQ,
    decreases s.len(),
{
    if s.len() > 1 {
        lemma_minmax_range(s.drop_last());
    }
}

/// The (position, velocity) pairs of the live atoms among the first `k`
/// entities, in entity order.
pub open spec fn spec_pv_pairs(w: crate::ecs::World, k: int) -> Seq<(Vec3, Vec3)>
    decreases k,
{
    if k <= 0 {
        Seq::empty()
    } else {
        let rest = spec_pv_pairs(w, k - 1);
        if w.positions@[k - 1] is Some && w.velocities@[k - 1] is Some && w.atoms@[k - 1] is Some {
            rest.push((w.positions@[k - 1]->0.pos, w.velocities@[k - 1]->0.vel))
        } else {
            rest
        }
    }
}

/// There are no more live atoms than entities.
pub proof fn lemma_pv_pairs_len(w: crate::ecs::World, k: int)
    requires
        k >= 0,
    ensures
        spec_pv_pairs(w, k).len() <= k,
    decreases k,
{
    if k > 0 {
        lemma_pv_pairs_len(w, k - 1);
    }
}

/// The exact effect of one partition build: only the box ids and the
/// hashmap change; every live atom's id is recomputed from its position
/// alone, and the rebuilt map holds exactly the grouped velocities and
/// occupancies of the in-extent atoms.
pub open spec fn spec_build_run(pre: crate::ecs::World, post: crate::ecs::World) -> bool {
    &&& post.wf()
    &&& post == (crate::ecs::World { boxids: post.boxids, hashmap: post.hashmap, ..pre })
    &&& post.boxids@.len() == pre.boxids@.len()
    &&& forall|i: int|
        0 <= i < pre.n_entities && (#[trigger] pre.positions@[i]) is Some
            && pre.atoms@[i] is Some ==> post.boxids@[i] == Some(BoxID {
            id: spec_pos_to_id(
                pre.positions@[i]->0.pos,
                pre.partition_params.box_number as int,
                pre.partition_params.box_width as int,
            ) as i64,
        })
    &&& forall|i: int|
        0 <= i < pre.n_entities && !((#[trigger] pre.positions@[i]) is Some
            && pre.atoms@[i] is Some) ==> post.boxids@[i] == pre.boxids@[i]
    &&& crate::cellmap::cell_map_contents(post.hashmap.hashmap) == spec_partition_map(
        spec_pv_pairs(pre, pre.n_entities as int),
        pre.partition_params.box_number as int,
        pre.partition_params.box_width as int,
    )
}

/// Builds the spatial partition of the current tick: assigns a `BoxID`
/// to every atom and groups atom velocities into cells.
pub struct BuildSpatialPartitionSystem;

impl BuildSpatialPartitionSystem {
    /// Two passes: a contention-free id-assignment pass writing each
    /// live atom's `BoxID` from its position alone, then an aggregation
    /// pass grouping atom velocities by cell id into a freshly rebuilt
    /// hashmap.
    pub fn run(w: &mut crate::ecs::World)
        requires
            old(w).wf(),
        ensures
            spec_build_run(*old(w), *final(w)),
    {
        let n = w.n_entities;
        let nb = w.partition_params.box_number;
        let width = w.partition_params.box_width;
        let mut i: usize = 0;
        while i < n
            invariant
                0 <= i <= n,
                n == old(w).n_entities,
                nb == old(w).partition_params.box_number,
                width == old(w).partition_params.box_width,
                w.wf(),
                *w == (crate::ecs::World { boxids: w.boxids, ..*old(w) }),
                w.boxids@.len() == old(w).boxids@.len(),
                forall|j: int| i <= j < n ==> (#[trigger] w.boxids@[j]) == old(w).boxids@[j],
                forall|j: int|
                    0 <= j < i && (#[trigger] old(w).positions@[j]) is Some && old(
                        w,
                    ).atoms@[j] is Some ==> w.boxids@[j] == Some(BoxID {
                        id: spec_pos_to_id(
                            old(w).positions@[j]->0.pos,
                            old(w).partition_params.box_number as int,
                            old(w).partition_params.box_width as int,
                        ) as i64,
                    }),
                forall|j: int|
                    0 <= j < i && !((#[trigger] old(w).positions@[j]) is Some && old(
                        w,
                    ).atoms@[j] is Some) ==> w.boxids@[j] == old(w).boxids@[j],
            decreases n - i,
        {
            if w.positions[i].is_some() && w.atoms[i].is_some() {
                let pos = w.positions[i].unwrap().pos;
                let id = pos_to_id(pos, nb, width);
                w.boxids[i] = Some(BoxID { id });
            }
            i = i + 1;
        }
        let mut pairs: Vec<(Vec3, Vec3)> = Vec::new();
        let mut k: usize = 0;
        while k < n
            invariant
                0 <= k <= n,
                n == old(w).n_entities,
                nb == old(w).partition_params.box_number,
                width == old(w).partition_params.box_width,
                w.wf(),
                *w == (crate::ecs::World { boxids: w.boxids, ..*old(w) }),
                pairs@ == spec_pv_pairs(*old(w), k as int),
                forall|l: int| 0 <= l < pairs@.len() ==> (#[trigger] pairs@[l]).0.in_range(),
            decreases n - k,
        {
            if w.positions[k].is_some() && w.velocities[k].is_some() && w.atoms[k].is_some() {
                let p = w.positions[k].unwrap().pos;
                let v = w.velocities[k].unwrap().vel;
                pairs.push((p, v));
            }
            k = k + 1;
        }
        proof {
            lemma_pv_pairs_len(*old(w), n as int);
        }
        let map = build_cells(&pairs, nb, width);
        w.hashmap = VelocityHashmap { hashmap: map };
    }
}

/// A stored occupancy, read defensively: negative values count as zero
/// and values beyond the entity bound saturate.
pub open spec fn spec_clamp_count(c: int) -> int {
    if c < 0 {
        0
    } else if c > 0x8000_0000 {
        0x8000_0000
    } else {
        c
    }
}

/// The total occupancy of the enumerated cells.
pub open spec fn spec_sum_counts(
    ids: Seq<i64>,
    contents: Map<int, (Seq<(int, int, int)>, int, int, int, int, int, int)>,
) -> int
    decreases ids.len(),
{
    if ids.len() == 0 {
        0
    } else {
        spec_sum_counts(ids.drop_last(), contents) + (
        if contents.dom().contains(ids.last() as int) {
            spec_clamp_count(contents[ids.last() as int].6)
        } else {
            0
        })
    }
}

/// The occupancy contribution of one enumerated cell id, as a triple
/// (the summing machinery is shared with the field aggregation laws).
pub open spec fn spec_count_contrib(
    contents: Map<int, (Seq<(int, int, int)>, int, int, int, int, int, int)>,
) -> spec_fn(i64) -> (int, int, int) {
    |id: i64|
        (
            if contents.dom().contains(id as int) {
                spec_clamp_count(contents[id as int].6)
            } else {
                0
            },
            0,
            0,
        )
}

/// The occupancy total is the first component of the generic
/// contribution sum.
proof fn lemma_sum_counts_as_contributions(
    ids: Seq<i64>,
    contents: Map<int, (Seq<(int, int, int)>, int, int, int, int, int, int)>,
)
    ensures
        spec_sum_counts(ids, contents) == crate::sums::sum_contributions(
            ids,
            spec_count_contrib(contents),
        ).0,
    decreases ids.len(),
{
    if ids.len() > 0 {
        lemma_sum_counts_as_contributions(ids.drop_last(), contents);
    }
}

/// Law: the total occupancy does not depend on the order in which the
/// cells are enumerated. Any two duplicate-free enumerations of the
/// same cell set (the hash map's iteration order is unspecified) give
/// exactly the same total, so the rescaling heuristic is deterministic
/// in the map's contents.
pub proof fn lemma_occupancy_order_independent(
    ids1: Seq<i64>,
    ids2: Seq<i64>,
    contents: Map<int, (Seq<(int, int, int)>, int, int, int, int, int, int)>,
)
    requires
        forall|i: int, j: int| 0 <= i < j < ids1.len() ==> ids1[i] != ids1[j],
        forall|i: int, j: int| 0 <= i < j < ids2.len() ==> ids2[i] != ids2[j],
        ids1.to_set() == ids2.to_set(),
    ensures
        spec_sum_counts(ids1, contents) == spec_sum_counts(ids2, contents),
{
    broadcast use vstd::seq_lib::group_to_multiset_ensures;

    assert(ids1.no_duplicates()) by {
        assert forall|i: int, j: int|
            0 <= i < ids1.len() && 0 <= j < ids1.len() && i != j implies ids1[i] != ids1[j] by {
            if i < j {
                assert(ids1[i] != ids1[j]);
            } else {
                assert(ids1[j] != ids1[i]);
            }
        }
    };
    assert(ids2.no_duplicates()) by {
        assert forall|i: int, j: int|
            0 <= i < ids2.len() && 0 <= j < ids2.len() && i != j implies ids2[i] != ids2[j] by {
            if i < j {
                assert(ids2[i] != ids2[j]);
            } else {
                assert(ids2[j] != ids2[i]);
            }
        }
    };
    ids1.lemma_multiset_has_no_duplicates();
    ids2.lemma_multiset_has_no_duplicates();
    assert(ids1.to_multiset() =~= ids2.to_multiset()) by {
        assert forall|x: i64| ids1.to_multiset().count(x) == ids2.to_multiset().count(x) by {
            assert(ids1.to_set().contains(x) == ids1.contains(x));
            assert(ids2.to_set().contains(x) == ids2.contains(x));
            if ids1.contains(x) {
                assert(ids1.to_multiset().count(x) == 1);
                assert(ids2.contains(x));
                assert(ids2.to_multiset().count(x) == 1);
            } else {
                assert(!ids2.contains(x));
                assert(ids1.to_multiset().count(x) == 0);
                assert(ids2.to_multiset().count(x) == 0);
            }
        }
    };
    lemma_sum_counts_as_contributions(ids1, contents);
    lemma_sum_counts_as_contributions(ids2, contents);
    crate::sums::lemma_sum_permutation(ids1, ids2, spec_count_contrib(contents));
}

/// The average occupancy per cell at fixed-point scale, clamped into
/// the range the width rescaling accepts.
pub open spec fn spec_avg(total: int, count: int) -> int {
    let a = (total * (UNIT as int)) / count;
    if a < 1 {
        1
    } else if a > MAXB {
        MAXB as int
    } else {
        a
    }
}

/// The axis coordinates (axis 0, 1, 2 for x, y, z) of the live atoms
/// among the first `k` entities, in entity order.
pub open spec fn spec_atom_coords(w: crate::ecs::World, k: int, axis: int) -> Seq<i64>
    decreases k,
{
    if k <= 0 {
        Seq::empty()
    } else {
        let rest = spec_atom_coords(w, k - 1, axis);
        if w.positions@[k - 1] is Some && w.atoms@[k - 1] is Some {
            let p = w.positions@[k - 1]->0.pos;
            rest.push(
                if axis == 0 {
                    p.x
                } else if axis == 1 {
                    p.y
                } else {
                    p.z
                },
            )
        } else {
            rest
        }
    }
}

/// The box count recomputed from the bounding-box extent: the ceiling
/// of the extent over the new width, clamped into the accepted range.
pub open spec fn spec_new_box_number(range: int, width: int) -> int {
    let q = (range + width - 1) / width;
    if q < 1 {
        1
    } else if q > MAX_BOX_NUMBER {
        MAX_BOX_NUMBER as int
    } else {
        q
    }
}

/// The exact effect of one rescaling step, against a duplicate-free
/// enumeration `ids` of the occupied cells (the hash map's iteration
/// order is unspecified; `lemma_occupancy_order_independent` shows the
/// total is the same for every enumeration) and the cube root `c` used:
/// only the partition parameters change, and only when there are
/// occupied cells, occupancy and positioned atoms.
pub open spec fn spec_rescale_run(
    pre: crate::ecs::World,
    post: crate::ecs::World,
    ids: Seq<i64>,
    c: int,
) -> bool {
    &&& post.wf()
    &&& post == (crate::ecs::World { partition_params: post.partition_params, ..pre })
    &&& forall|i: int, j: int| 0 <= i < j < ids.len() ==> ids[i] != ids[j]
    &&& crate::cellmap::cell_map_contents(pre.hashmap.hashmap).dom() == ids.map_values(
        |x: i64| x as int,
    ).to_set()
    &&& ({
        let contents = crate::cellmap::cell_map_contents(pre.hashmap.hashmap);
        let total = spec_sum_counts(ids, contents);
        let xs = spec_atom_coords(pre, pre.n_entities as int, 0);
        let ys = spec_atom_coords(pre, pre.n_entities as int, 1);
        let zs = spec_atom_coords(pre, pre.n_entities as int, 2);
        let p = pre.partition_params;
        if ids.len() == 0 || total == 0 || xs.len() == 0 {
            post.partition_params == p
        } else {
            let avg = spec_avg(total, ids.len() as int);
            let ratio = (p.target_density * (UNIT as int)) / avg;
            let range_x = seq_max(xs) - seq_min(xs);
            let range_y = seq_max(ys) - seq_min(ys);
            let range_z = seq_max(zs) - seq_min(zs);
            let range = if range_x >= range_y && range_x >= range_z {
                range_x
            } else if range_y >= range_z {
                range_y
            } else {
                range_z
            };
            let new_width = spec_rescaled_width(p.box_width as int, p.target_density as int, c);
            &&& is_cbrt_of(ratio * (UNIT as int) * (UNIT as int), c)
            &&& post.partition_params == (PartitionParameters {
                box_number: spec_new_box_number(range, new_width) as i64,
                box_width: new_width as i64,
                target_density: p.target_density,
            })
        }
    })
}

/// Adjusts `box_width` and `box_number` towards the target density: an
/// approximate density-equalisation heuristic, not an exact one.
pub struct RescalePartitionCellSystem;

impl RescalePartitionCellSystem {
    /// Rescales the box width by the cube root of
    /// `target_density / average occupancy` and recomputes the box count
    /// from the bounding-box extent of the live atoms. The step is
    /// skipped when there are no occupied cells, no occupancy, or no
    /// positioned atoms (guarding the divisions by zero). The returned
    /// ghost witness is the enumeration of the cell ids (hashbrown's
    /// iteration order is unspecified) and the cube root used.
    pub fn run(w: &mut crate::ecs::World) -> (witness: Ghost<(Seq<i64>, int)>)
        requires
            old(w).wf(),
        ensures
            spec_rescale_run(*old(w), *final(w), witness@.0, witness@.1),
    {
        let n = w.n_entities;
        let ids = crate::cellmap::cell_map_ids(&w.hashmap.hashmap);
        let ghost contents = crate::cellmap::cell_map_contents(w.hashmap.hashmap);
        let mut xs: Vec<i64> = Vec::new();
        let mut ys: Vec<i64> = Vec::new();
        let mut zs: Vec<i64> = Vec::new();
        let mut k: usize = 0;
        while k < n
            invariant
                0 <= k <= n,
                n == old(w).n_entities,
                w.wf(),
                *w == *old(w),
                xs@ == spec_atom_coords(*old(w), k as int, 0),
                ys@ == spec_atom_coords(*old(w), k as int, 1),
                zs@ == spec_atom_coords(*old(w), k as int, 2),
                forall|l: int| 0 <= l < xs@.len() ==> -MAXQ <= #[trigger] xs@[l] <= MAXQ,
                forall|l: int| 0 <= l < ys@.len() ==> -MAXQ <= #[trigger] ys@[l] <= MAXQ,
                forall|l: int| 0 <= l < zs@.len() ==> -MAXQ <= #[trigger] zs@[l] <= MAXQ,
            decreases n - k,
        {
            if w.positions[k].is_some() && w.atoms[k].is_some() {
                let p = w.positions[k].unwrap().pos;
                xs.push(p.x);
                ys.push(p.y);
                zs.push(p.z);
            }
            k = k + 1;
        }
        let mut total: i128 = 0;
        let m = ids.len();
        let mut t: usize = 0;
        while t < m
            invariant
                0 <= t <= m,
                m == ids@.len(),
                w.wf(),
                *w == *old(w),
                contents == crate::cellmap::cell_map_contents(w.hashmap.hashmap),
                total == spec_sum_counts(ids@.subrange(0, t as int), contents),
                0 <= total <= t * 0x8000_0000,
            decreases m - t,
        {
            proof {
                assert(ids@.subrange(0, t + 1).drop_last() =~= ids@.subrange(0, t as int));
                assert(ids@.subrange(0, t + 1).last() == ids@[t as int]);
                assert((t + 1) * 0x8000_0000 == t * 0x8000_0000 + 0x8000_0000)
                    by (nonlinear_arith);
                assert(t * 0x8000_0000 <= 0xffff_ffff_ffff_ffff * 0x8000_0000)
                    by (nonlinear_arith)
                    requires 0 <= t <= 0xffff_ffff_ffff_ffff;
                assert((0xffff_ffff_ffff_ffff as int) * 0x8000_0000
                    == 0x7fff_ffff_ffff_ffff_8000_0000) by (nonlinear_arith);
            }
            let id = ids[t];
            match crate::cellmap::cell_map_get(&w.hashmap.hashmap, id) {
                Some(cell) => {
                    let pn = cell.particle_number;
                    let pnc: i64 = if pn < 0 {
                        0
                    } else if pn > 0x8000_0000 {
                        0x8000_0000
                    } else {
                        pn
                    };
                    total = total + pnc as i128;
                },
                None => {},
            }
            t = t + 1;
        }
        proof {
            assert(ids@.subrange(0, m as int) =~= ids@);
        }
        if ids.len() == 0 || total == 0 || xs.len() == 0 {
            return Ghost((ids@, 0));
        }
        proof {
            assert(m >= 1);
            assert(total >= 1);
            assert(0 <= total * (UNIT as int) <= (m * 0x8000_0000) * (UNIT as int))
                by (nonlinear_arith)
                requires 0 <= total <= m * 0x8000_0000;
            assert((m * 0x8000_0000) * (UNIT as int) <= (0xffff_ffff_ffff_ffff * 0x8000_0000) * (
            UNIT as int)) by (nonlinear_arith)
                requires 0 <= m <= 0xffff_ffff_ffff_ffff;
            assert(((0xffff_ffff_ffff_ffff as int) * 0x8000_0000) * (UNIT as int)
                == 0x7fff_ffff_ffff_ffff_8000_0000 * 1_000_000);
        }
        let avg128: i128 = crate::fixed::floor_div128(total * (UNIT as i128), m as i128);
        proof {
            assert(0 <= total as int * (UNIT as int)) by (nonlinear_arith)
                requires total >= 0;
            assert(total as int * (UNIT as int) <= (total as int * (UNIT as int)) * (m as int))
                by (nonlinear_arith)
                requires m >= 1 && 0 <= total as int * (UNIT as int);
            assert(-((total as int * (UNIT as int)) * (m as int)) <= 0) by (nonlinear_arith)
                requires 0 <= (total as int * (UNIT as int)) * (m as int);
            assert(0 <= (total as int * (UNIT as int)) * (m as int)) by (nonlinear_arith)
                requires m >= 1 && 0 <= total as int * (UNIT as int);
            crate::fixed::lemma_div_range(
                total as int * (UNIT as int),
                m as int,
                total as int * (UNIT as int),
            );
            assert(avg128 as int == spec_avg(total as int, m as int) || avg128 < 1 || avg128
                > MAXB);
        }
        let avg: i64 = if avg128 < 1 {
            1
        } else if avg128 > MAXB as i128 {
            MAXB
        } else {
            avg128 as i64
        };
        proof {
            assert(avg as int == spec_avg(total as int, m as int));
        }
        let target = w.partition_params.target_density;
        let old_width = w.partition_params.box_width;
        let (new_width, root) = rescaled_width(old_width, target, avg);
        proof {
            lemma_coords_same_len(*old(w), n as int);
            assert(-MAXQ <= seq_min(xs@) <= MAXQ && -MAXQ <= seq_max(xs@) <= MAXQ
                && -MAXQ <= seq_min(ys@) <= MAXQ && -MAXQ <= seq_max(ys@) <= MAXQ
                && -MAXQ <= seq_min(zs@) <= MAXQ && -MAXQ <= seq_max(zs@) <= MAXQ) by {
                lemma_minmax_range(xs@);
                lemma_minmax_range(ys@);
                lemma_minmax_range(zs@);
            };
        }
        let min_x = get_min(&xs);
        let max_x = get_max(&xs);
        let min_y = get_min(&ys);
        let max_y = get_max(&ys);
        let min_z = get_min(&zs);
        let max_z = get_max(&zs);
        let range_x = max_x - min_x;
        let range_y = max_y - min_y;
        let range_z = max_z - min_z;
        let range = if range_x >= range_y && range_x >= range_z {
            range_x
        } else if range_y >= range_z {
            range_y
        } else {
            range_z
        };
        proof {
            assert(0 <= range_x <= 4 * (MAXQ as int));
            assert(0 <= range_y <= 4 * (MAXQ as int));
            assert(0 <= range_z <= 4 * (MAXQ as int));
        }
        let q = ceil_div(range, new_width);
        let nb: i64 = if q < 1 {
            1
        } else if q > MAX_BOX_NUMBER {
            MAX_BOX_NUMBER
        } else {
            q
        };
        w.partition_params = PartitionParameters {
            box_number: nb,
            box_width: new_width,
            target_density: target,
        };
        Ghost((ids@, root@))
    }
}

} // verus!
