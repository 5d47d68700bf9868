//! Define magnetic fields using grids.
//!
//! The grid is ordered as a linear array, with elements ordered in
//! priority z, y, x; items with `dz = 1` are adjacent in memory.

use vstd::prelude::*;
use crate::fixed::MAXQ;
use crate::fixed::floor_div128;
use crate::vec3::Vec3;

verus! {

/// Clamps a computed cell coordinate onto `[0, n)`: positions outside
/// the grid extent use the boundary cell, never extrapolation.
pub open spec fn clamp_index(q: int, n: int) -> int {
    if q < 0 {
        0
    } else if q >= n {
        n - 1
    } else {
        q
    }
}

/// Defines a magnetic field using a grid-based representation.
#[derive(Debug, Clone)]
pub struct PrecalculatedMagneticFieldGrid {
    /// Size of the grid, fixed-point metres.
    pub extent_spatial: Vec3,
    /// Position of the grid center, fixed-point metres.
    pub position: Vec3,
    /// Size of the grid in cells along the (x, y, z) axes; these are
    /// plain counts, not fixed-point values.
    pub extent_cells: Vec3,
    /// The field at each grid cell.
    pub grid: Vec<Vec3>,
}

impl PrecalculatedMagneticFieldGrid {
    /// A grid the lookup kernel accepts: positive extent, positive cell
    /// counts, and one stored (bounded) field value per cell.
    pub open spec fn valid(self) -> bool {
        &&& self.position.in_range()
        &&& 1 <= self.extent_spatial.x <= MAXQ
        &&& 1 <= self.extent_spatial.y <= MAXQ
        &&& 1 <= self.extent_spatial.z <= MAXQ
        &&& 1 <= self.extent_cells.x <= 1024
        &&& 1 <= self.extent_cells.y <= 1024
        &&& 1 <= self.extent_cells.z <= 1024
        &&& self.grid@.len() == self.extent_cells.x * self.extent_cells.y * self.extent_cells.z
        &&& forall|i: int| 0 <= i < self.grid@.len() ==> (#[trigger] self.grid@[i]).in_range()
    }

    /// The flattened index of the cell nearest to `pos`: each axis
    /// coordinate is offset by half the extent, scaled to cells and
    /// clamped to the boundary.
    pub open spec fn spec_grid_index(self, pos: Vec3) -> int {
        let cx = clamp_index(
            ((pos.x - self.position.x + self.extent_spatial.x / 2) * self.extent_cells.x) / (
            self.extent_spatial.x as int),
            self.extent_cells.x as int,
        );
        let cy = clamp_index(
            ((pos.y - self.position.y + self.extent_spatial.y / 2) * self.extent_cells.y) / (
            self.extent_spatial.y as int),
            self.extent_cells.y as int,
        );
        let cz = clamp_index(
            ((pos.z - self.position.z + self.extent_spatial.z / 2) * self.extent_cells.z) / (
            self.extent_spatial.z as int),
            self.extent_cells.z as int,
        );
        (self.extent_cells.z as int) * ((self.extent_cells.y as int) * cx + cy) + cz
    }

    /// Maps a position to the flattened index of its nearest cell.
    pub fn position_to_grid_index(&self, pos: &Vec3) -> (r: i64)
        requires
            self.valid(),
            pos.in_range(),
        ensures
            r == self.spec_grid_index(*pos),
            0 <= r < self.grid@.len(),
    {
        let cx = Self::axis_index(pos.x, self.position.x, self.extent_spatial.x,
            self.extent_cells.x);
        let cy = Self::axis_index(pos.y, self.position.y, self.extent_spatial.y,
            self.extent_cells.y);
        let cz = Self::axis_index(pos.z, self.position.z, self.extent_spatial.z,
            self.extent_cells.z);
        proof {
            let nx = self.extent_cells.x as int;
            let ny = self.extent_cells.y as int;
            let nz = self.extent_cells.z as int;
            assert(0 <= ny * cx <= 1024 * 1024) by (nonlinear_arith)
                requires 0 <= cx < nx && 1 <= nx <= 1024 && 1 <= ny <= 1024;
            assert(0 <= nz * (ny * cx + cy) <= 1024 * 1024 * 1024 * 1024) by (nonlinear_arith)
                requires 0 <= ny * cx + cy <= 1024 * 1024 + 1024 && 1 <= nz <= 1024;
            assert(0 <= nz * (ny * cx + cy) + cz < nx * ny * nz) by (nonlinear_arith)
                requires
                    0 <= cx < nx && 0 <= cy < ny && 0 <= cz < nz && 1 <= nx <= 1024 && 1 <= ny
                        <= 1024 && 1 <= nz <= 1024;
        }
        let r: i64 = self.extent_cells.z * (self.extent_cells.y * cx + cy) + cz;
        r
    }

    /// Nearest-cell lookup of the stored field.
    pub fn get_field(&self, pos: &Vec3) -> (r: Vec3)
        requires
            self.valid(),
            pos.in_range(),
        ensures
            r == self.grid@[self.spec_grid_index(*pos)],
            r.in_range(),
    {
        let index = self.position_to_grid_index(pos);
        let _len: usize = self.grid.len();
        let u: usize = index as usize;
        self.grid[u]
    }

    /// The clamped cell coordinate of one axis.
    fn axis_index(p: i64, centre: i64, extent: i64, cells: i64) -> (r: i64)
        requires
            -MAXQ <= p <= MAXQ,
            -MAXQ <= centre <= MAXQ,
            1 <= extent <= MAXQ,
            1 <= cells <= 1024,
        ensures
            r == clamp_index(((p - centre + extent / 2) * cells) / (extent as int), cells as int),
    {
        let half: i64 = extent / 2;
        let d: i64 = p - centre + half;
        proof {
            assert(-(3 * (MAXQ as int) * 1024) <= d as int * cells as int <= 3 * (MAXQ as int)
                * 1024) by (nonlinear_arith)
                requires -3 * (MAXQ as int) <= d <= 3 * (MAXQ as int) && 1 <= cells <= 1024;
        }
        let scaled: i128 = (d as i128) * (cells as i128);
        let q: i128 = floor_div128(scaled, extent as i128);
        if q < 0 {
            0
        } else if q >= cells as i128 {
            cells - 1
        } else {
            q as i64
        }
    }
}

/// The exact effect of one grid sampling pass on the store: only the
/// samplers change, and each sampler of a positioned entity gains the
/// summed nearest-cell grid field of all grid sources at that position.
pub open spec fn spec_grid_run(pre: crate::ecs::World, post: crate::ecs::World) -> bool {
    &&& post.wf()
    &&& post == (crate::ecs::World { samplers: post.samplers, ..pre })
    &&& post.samplers@.len() == pre.samplers@.len()
    &&& forall|i: int|
        0 <= i < pre.n_entities && (#[trigger] pre.positions@[i]) is Some
            && pre.samplers@[i] is Some ==> {
            let total = crate::magnetic::spec_grid_total(pre, pre.positions@[i]->0.pos);
            let prev = pre.samplers@[i]->0.field;
            post.samplers@[i] == Some(crate::magnetic::MagneticFieldSampler {
                field: Vec3 {
                    x: crate::fixed::clamp64(prev.x + total.0) as i64,
                    y: crate::fixed::clamp64(prev.y + total.1) as i64,
                    z: crate::fixed::clamp64(prev.z + total.2) as i64,
                },
            })
        }
    &&& forall|i: int|
        0 <= i < pre.n_entities && !((#[trigger] pre.positions@[i]) is Some
            && pre.samplers@[i] is Some) ==> post.samplers@[i] == pre.samplers@[i]
}

/// Updates the values of magnetic field samplers to include grid fields
/// in the world.
pub struct SampleMagneticGridSystem;

impl SampleMagneticGridSystem {
    /// Sums the grid fields of all grid sources in the arena at one
    /// position; the partial sums live in wide accumulators, so the
    /// merge is exact.
    fn total_at(grids: &Vec<Option<PrecalculatedMagneticFieldGrid>>, pos: Vec3) -> (acc: (
        i128,
        i128,
        i128,
    ))
        requires
            pos.in_range(),
            grids@.len() < 0x4000_0000,
            forall|l: int|
                0 <= l < grids@.len() && grids@[l] is Some ==> (#[trigger] grids@[l])->0.valid(),
        ensures
            (acc.0 as int, acc.1 as int, acc.2 as int) == crate::sums::sum_contributions(
                crate::magnetic::spec_grid_sources(grids@, grids@.len() as int),
                crate::magnetic::grid_contrib(pos),
            ),
    {
        let ghost f = crate::magnetic::grid_contrib(pos);
        let mut ax: i128 = 0;
        let mut ay: i128 = 0;
        let mut az: i128 = 0;
        let n = grids.len();
        let mut j: usize = 0;
        proof {
            crate::magnetic::lemma_grid_sources_len(grids@, n as int);
        }
        while j < n
            invariant
                0 <= j <= n,
                n == grids@.len() < 0x4000_0000,
                pos.in_range(),
                forall|l: int|
                    0 <= l < grids@.len() && grids@[l] is Some ==> (
                    #[trigger] grids@[l])->0.valid(),
                f == crate::magnetic::grid_contrib(pos),
                (ax as int, ay as int, az as int) == crate::sums::sum_contributions(
                    crate::magnetic::spec_grid_sources(grids@, j as int),
                    f,
                ),
                -(j * (MAXQ as int)) <= ax <= j * (MAXQ as int),
                -(j * (MAXQ as int)) <= ay <= j * (MAXQ as int),
                -(j * (MAXQ as int)) <= az <= j * (MAXQ as int),
            decreases n - j,
        {
            proof {
                assert((j + 1) * (MAXQ as int) == j * (MAXQ as int) + MAXQ) by (nonlinear_arith);
                assert(j * (MAXQ as int) <= 0x4000_0000 * (MAXQ as int) && -(0x4000_0000 * (
                MAXQ as int)) <= j * (MAXQ as int)) by (nonlinear_arith)
                    requires 0 <= j <= 0x4000_0000;
                assert((0x4000_0000 as int) * (MAXQ as int) == 0x1000_0000_0000_0000)
                    by (nonlinear_arith);
            }
            match &grids[j] {
                Some(g) => {
                    let field = g.get_field(&pos);
                    proof {
                        let s0 = crate::magnetic::spec_grid_sources(grids@, j as int);
                        let s1 = crate::magnetic::spec_grid_sources(grids@, j as int + 1);
                        assert(s1 == s0.push(grids@[j as int]->0));
                        assert(s1.drop_last() =~= s0);
                        assert(s1.last() == grids@[j as int]->0);
                        assert(f(grids@[j as int]->0) == (field.x as int, field.y as int,
                        field.z as int));
                    }
                    ax = ax + field.x as i128;
                    ay = ay + field.y as i128;
                    az = az + field.z as i128;
                },
                None => {
                    proof {
                        assert(crate::magnetic::spec_grid_sources(grids@, j as int + 1)
                            == crate::magnetic::spec_grid_sources(grids@, j as int));
                    }
                },
            }
            j = j + 1;
        }
        (ax, ay, az)
    }

    /// Adds, for every entity carrying a field sampler and a position,
    /// the summed grid field of all grid sources at that position into
    /// the shared accumulator.
    pub fn run(w: &mut crate::ecs::World)
        requires
            old(w).wf(),
        ensures
            spec_grid_run(*old(w), *final(w)),
    {
        let n = w.n_entities;
        let mut i: usize = 0;
        while i < n
            invariant
                0 <= i <= n,
                n == old(w).n_entities,
                w.wf(),
                *w == (crate::ecs::World { samplers: w.samplers, ..*old(w) }),
                w.samplers@.len() == old(w).samplers@.len(),
                forall|j: int| i <= j < n ==> (#[trigger] w.samplers@[j]) == old(w).samplers@[j],
                forall|j: int|
                    0 <= j < i && (#[trigger] old(w).positions@[j]) is Some && old(
                        w,
                    ).samplers@[j] is Some ==> {
                        let total = crate::magnetic::spec_grid_total(
                            *old(w),
                            old(w).positions@[j]->0.pos,
                        );
                        let prev = old(w).samplers@[j]->0.field;
                        w.samplers@[j] == Some(crate::magnetic::MagneticFieldSampler {
                            field: Vec3 {
                                x: crate::fixed::clamp64(prev.x + total.0) as i64,
                                y: crate::fixed::clamp64(prev.y + total.1) as i64,
                                z: crate::fixed::clamp64(prev.z + total.2) as i64,
                            },
                        })
                    },
                forall|j: int|
                    0 <= j < i && !((#[trigger] old(w).positions@[j]) is Some && old(
                        w,
                    ).samplers@[j] is Some) ==> w.samplers@[j] == old(w).samplers@[j],
            decreases n - i,
        {
            if w.positions[i].is_some() && w.samplers[i].is_some() {
                let pos = w.positions[i].unwrap().pos;
                let prev = w.samplers[i].unwrap().field;
                let acc = Self::total_at(&w.grids, pos);
                let fx = crate::fixed::add_clamp128(prev.x, acc.0);
                let fy = crate::fixed::add_clamp128(prev.y, acc.1);
                let fz = crate::fixed::add_clamp128(prev.z, acc.2);
                w.samplers[i] = Some(crate::magnetic::MagneticFieldSampler {
                    field: Vec3 { x: fx, y: fy, z: fz },
                });
            }
            i = i + 1;
        }
    }
}

} // verus!
