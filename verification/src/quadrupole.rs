//! A 3D quadrupole magnetic field.

use vstd::prelude::*;
use crate::fixed::MAXQ;
use crate::fixed::UNIT;
use crate::fixed::div_unit128;
use crate::fixed::floor_div64;
use crate::fixed::floor_div128;
use crate::fixed::is_sqrt_of;
use crate::fixed::isqrt128;
use crate::vec3::Vec3;

verus! {

/// A component representing a 3D quadrupole field.
#[derive(Debug, Clone, Copy, PartialEq, Eq, Structural)]
pub struct QuadrupoleField3D {
    /// Gradient of the quadrupole field, fixed-point Tesla/m.
    pub gradient: i64,
    /// A unit vector (at fixed-point scale) along the symmetry axis of
    /// the field.
    pub direction: Vec3,
}

impl QuadrupoleField3D {
    /// A quadrupole descriptor the sampling kernel accepts: bounded
    /// gradient and a unit-scale axis.
    pub open spec fn valid(self) -> bool {
        &&& -MAXQ <= self.gradient <= MAXQ
        &&& -2 * (UNIT as int) <= self.direction.x <= 2 * (UNIT as int)
        &&& -2 * (UNIT as int) <= self.direction.y <= 2 * (UNIT as int)
        &&& -2 * (UNIT as int) <= self.direction.z <= 2 * (UNIT as int)
    }

    /// Creates a `QuadrupoleField3D` component with gradient specified
    /// in Gauss per cm, normalizing the given axis.
    pub fn gauss_per_cm(gradient: i64, direction: Vec3) -> (r: QuadrupoleField3D)
        requires
            -MAXQ <= gradient <= MAXQ,
            direction.in_range(),
            direction != (Vec3 { x: 0, y: 0, z: 0 }),
        ensures
            r.gradient == gradient as int / 100,
            exists|n: int|
                {
                    &&& #[trigger] is_sqrt_of(
                        direction.x * direction.x + direction.y * direction.y + direction.z
                            * direction.z,
                        n,
                    )
                    &&& n >= 1
                    &&& r.direction.x == direction.x * (UNIT as int) / n
                    &&& r.direction.y == direction.y * (UNIT as int) / n
                    &&& r.direction.z == direction.z * (UNIT as int) / n
                },
            r.valid(),
    {
        let norm_sq: i128 = direction.norm_sq_raw();
        proof {
            assert(direction.x != 0 || direction.y != 0 || direction.z != 0);
            assert(norm_sq >= 1) by (nonlinear_arith)
                requires
                    norm_sq == direction.x as int * direction.x as int + direction.y as int
                        * direction.y as int + direction.z as int * direction.z as int
                        && (direction.x != 0 || direction.y != 0 || direction.z != 0);
        }
        proof {
            assert((MAXQ as int) * (MAXQ as int) == 0x1000_0000_0000_0000) by (nonlinear_arith);
            assert(direction.x as int * direction.x as int >= 0) by (nonlinear_arith);
            assert(direction.y as int * direction.y as int >= 0) by (nonlinear_arith);
            assert(direction.z as int * direction.z as int >= 0) by (nonlinear_arith);
            assert(direction.x as int * direction.x as int <= (MAXQ as int) * (MAXQ as int))
                by (nonlinear_arith)
                requires -MAXQ <= direction.x <= MAXQ;
            assert(direction.y as int * direction.y as int <= (MAXQ as int) * (MAXQ as int))
                by (nonlinear_arith)
                requires -MAXQ <= direction.y <= MAXQ;
            assert(direction.z as int * direction.z as int <= (MAXQ as int) * (MAXQ as int))
                by (nonlinear_arith)
                requires -MAXQ <= direction.z <= MAXQ;
        }
        let n: i128 = isqrt128(norm_sq);
        proof {
            assert(n >= 1) by (nonlinear_arith)
                requires is_sqrt_of(norm_sq as int, n as int) && norm_sq >= 1;
        }
        let dir = Vec3 {
            x: normalize_component(direction.x, n, Ghost(norm_sq as int)),
            y: normalize_component(direction.y, n, Ghost(norm_sq as int)),
            z: normalize_component(direction.z, n, Ghost(norm_sq as int)),
        };
        QuadrupoleField3D { gradient: floor_div64(gradient, 100), direction: dir }
    }
}

/// One component of the axis, scaled to a unit vector: `c * UNIT / n`
/// where `n` is the integer length of the axis.
fn normalize_component(c: i64, n: i128, Ghost(norm_sq): Ghost<int>) -> (r: i64)
    requires
        is_sqrt_of(norm_sq, n as int),
        1 <= n < 0x1_0000_0000_0000,
        -MAXQ <= c <= MAXQ,
        c * c <= norm_sq,
    ensures
        r == c as int * (UNIT as int) / n as int,
        -2 * (UNIT as int) <= r <= 2 * (UNIT as int),
{
    proof {
        assert(-(n as int) <= c <= n as int) by (nonlinear_arith)
            requires
                c * c <= norm_sq && norm_sq < (n as int + 1) * (n as int + 1) && n >= 1;
        assert(-((2 * (UNIT as int)) * (n as int)) <= c as int * (UNIT as int)
            <= (2 * (UNIT as int)) * (n as int)) by (nonlinear_arith)
            requires -(n as int) <= c <= n as int && n >= 1;
        crate::fixed::lemma_div_range(c as int * (UNIT as int), n as int, 2 * (UNIT as int));
    }
    let p: i128 = (c as i128) * (UNIT as i128);
    let q: i128 = floor_div128(p, n);
    q as i64
}

/// The quadrupole field sampled at `pos` for a node at `centre`:
/// `gradient * (radial - 2 * axial)`, where axial and radial split the
/// offset from the node along the (unit-scale) symmetry axis. Every
/// division is an explicit floor onto the fixed-point lattice.
pub open spec fn spec_quadrupole_field(
    pos: Vec3,
    centre: Vec3,
    gradient: int,
    direction: Vec3,
) -> (int, int, int) {
    let dx = pos.x - centre.x;
    let dy = pos.y - centre.y;
    let dz = pos.z - centre.z;
    let dot = (dx * direction.x + dy * direction.y + dz * direction.z) / (UNIT as int);
    let zx = dot * direction.x / (UNIT as int);
    let zy = dot * direction.y / (UNIT as int);
    let zz = dot * direction.z / (UNIT as int);
    (
        gradient * ((dx - zx) - 2 * zx) / (UNIT as int),
        gradient * ((dy - zy) - 2 * zy) / (UNIT as int),
        gradient * ((dz - zz) - 2 * zz) / (UNIT as int),
    )
}

/// The exact effect of one quadrupole sampling pass on the store: only
/// the samplers change, and each sampler of a positioned entity gains
/// the summed quadrupole field of all sources at that position.
pub open spec fn spec_quadrupole_run(pre: crate::ecs::World, post: crate::ecs::World) -> bool {
    &&& post.wf()
    &&& post == (crate::ecs::World { samplers: post.samplers, ..pre })
    &&& post.samplers@.len() == pre.samplers@.len()
    &&& forall|i: int|
        0 <= i < pre.n_entities && (#[trigger] pre.positions@[i]) is Some
            && pre.samplers@[i] is Some ==> {
            let total = crate::magnetic::spec_quad_total(pre, pre.positions@[i]->0.pos);
            let prev = pre.samplers@[i]->0.field;
            post.samplers@[i] == Some(crate::magnetic::MagneticFieldSampler {
                field: Vec3 {
                    x: crate::fixed::clamp64(prev.x + total.0) as i64,
                    y: crate::fixed::clamp64(prev.y + total.1) as i64,
                    z: crate::fixed::clamp64(prev.z + total.2) as i64,
                },
            })
        }
    &&& forall|i: int|
        0 <= i < pre.n_entities && !((#[trigger] pre.positions@[i]) is Some
            && pre.samplers@[i] is Some) ==> post.samplers@[i] == pre.samplers@[i]
}

/// Updates the values of magnetic field samplers to include quadrupole
/// fields in the world.
pub struct Sample3DQuadrupoleFieldSystem;

impl Sample3DQuadrupoleFieldSystem {
    /// Calculates the quadrupole magnetic field at `pos`.
    ///
    /// `direction` must be a unit vector at fixed-point scale (as built
    /// by [`QuadrupoleField3D::gauss_per_cm`]).
    pub fn calculate_field(pos: Vec3, centre: Vec3, gradient: i64, direction: Vec3) -> (r: Vec3)
        requires
            pos.in_range(),
            centre.in_range(),
            -MAXQ <= gradient <= MAXQ,
            -2 * (UNIT as int) <= direction.x <= 2 * (UNIT as int),
            -2 * (UNIT as int) <= direction.y <= 2 * (UNIT as int),
            -2 * (UNIT as int) <= direction.z <= 2 * (UNIT as int),
        ensures
            (r.x as int, r.y as int, r.z as int) == spec_quadrupole_field(
                pos,
                centre,
                gradient as int,
                direction,
            ),
            -(74 * (MAXQ as int) * 2048) <= r.x <= 74 * (MAXQ as int) * 2048,
            -(74 * (MAXQ as int) * 2048) <= r.y <= 74 * (MAXQ as int) * 2048,
            -(74 * (MAXQ as int) * 2048) <= r.z <= 74 * (MAXQ as int) * 2048,
    {
        let dx: i64 = pos.x - centre.x;
        let dy: i64 = pos.y - centre.y;
        let dz: i64 = pos.z - centre.z;
        proof {
            assert(-(4 * (MAXQ as int) * (UNIT as int)) <= dx as int * direction.x as int
                <= 4 * (MAXQ as int) * (UNIT as int)) by (nonlinear_arith)
                requires
                    -2 * (MAXQ as int) <= dx <= 2 * (MAXQ as int) && -2 * (UNIT as int)
                        <= direction.x <= 2 * (UNIT as int);
            assert(-(4 * (MAXQ as int) * (UNIT as int)) <= dy as int * direction.y as int
                <= 4 * (MAXQ as int) * (UNIT as int)) by (nonlinear_arith)
                requires
                    -2 * (MAXQ as int) <= dy <= 2 * (MAXQ as int) && -2 * (UNIT as int)
                        <= direction.y <= 2 * (UNIT as int);
            assert(-(4 * (MAXQ as int) * (UNIT as int)) <= dz as int * direction.z as int
                <= 4 * (MAXQ as int) * (UNIT as int)) by (nonlinear_arith)
                requires
                    -2 * (MAXQ as int) <= dz <= 2 * (MAXQ as int) && -2 * (UNIT as int)
                        <= direction.z <= 2 * (UNIT as int);
        }
        let dot128: i128 = (dx as i128) * (direction.x as i128) + (dy as i128)
            * (direction.y as i128) + (dz as i128) * (direction.z as i128);
        let dot: i64 = div_unit128(dot128, Ghost(12 * MAXQ as int));
        proof {
            assert(-(24 * (MAXQ as int) * (UNIT as int)) <= dot as int * direction.x as int
                <= 24 * (MAXQ as int) * (UNIT as int)) by (nonlinear_arith)
                requires
                    -12 * (MAXQ as int) <= dot <= 12 * (MAXQ as int) && -2 * (UNIT as int)
                        <= direction.x <= 2 * (UNIT as int);
            assert(-(24 * (MAXQ as int) * (UNIT as int)) <= dot as int * direction.y as int
                <= 24 * (MAXQ as int) * (UNIT as int)) by (nonlinear_arith)
                requires
                    -12 * (MAXQ as int) <= dot <= 12 * (MAXQ as int) && -2 * (UNIT as int)
                        <= direction.y <= 2 * (UNIT as int);
            assert(-(24 * (MAXQ as int) * (UNIT as int)) <= dot as int * direction.z as int
                <= 24 * (MAXQ as int) * (UNIT as int)) by (nonlinear_arith)
                requires
                    -12 * (MAXQ as int) <= dot <= 12 * (MAXQ as int) && -2 * (UNIT as int)
                        <= direction.z <= 2 * (UNIT as int);
        }
        let zx: i64 = div_unit128((dot as i128) * (direction.x as i128), Ghost(24 * MAXQ as int));
        let zy: i64 = div_unit128((dot as i128) * (direction.y as i128), Ghost(24 * MAXQ as int));
        let zz: i64 = div_unit128((dot as i128) * (direction.z as i128), Ghost(24 * MAXQ as int));
        let tx: i64 = (dx - zx) - 2 * zx;
        let ty: i64 = (dy - zy) - 2 * zy;
        let tz: i64 = (dz - zz) - 2 * zz;
        proof {
            assert(-((74 * (MAXQ as int) * 2048) * (UNIT as int)) <= gradient as int * tx as int
                <= (74 * (MAXQ as int) * 2048) * (UNIT as int)) by (nonlinear_arith)
                requires
                    -74 * (MAXQ as int) <= tx <= 74 * (MAXQ as int) && -(MAXQ as int) <= gradient
                        <= MAXQ as int && MAXQ as int <= 2048 * (UNIT as int);
            assert(-((74 * (MAXQ as int) * 2048) * (UNIT as int)) <= gradient as int * ty as int
                <= (74 * (MAXQ as int) * 2048) * (UNIT as int)) by (nonlinear_arith)
                requires
                    -74 * (MAXQ as int) <= ty <= 74 * (MAXQ as int) && -(MAXQ as int) <= gradient
                        <= MAXQ as int && MAXQ as int <= 2048 * (UNIT as int);
            assert(-((74 * (MAXQ as int) * 2048) * (UNIT as int)) <= gradient as int * tz as int
                <= (74 * (MAXQ as int) * 2048) * (UNIT as int)) by (nonlinear_arith)
                requires
                    -74 * (MAXQ as int) <= tz <= 74 * (MAXQ as int) && -(MAXQ as int) <= gradient
                        <= MAXQ as int && MAXQ as int <= 2048 * (UNIT as int);
        }
        let fx: i64 = div_unit128(
            (gradient as i128) * (tx as i128),
            Ghost(74 * MAXQ as int * 2048),
        );
        let fy: i64 = div_unit128(
            (gradient as i128) * (ty as i128),
            Ghost(74 * MAXQ as int * 2048),
        );
        let fz: i64 = div_unit128(
            (gradient as i128) * (tz as i128),
            Ghost(74 * MAXQ as int * 2048),
        );
        Vec3 { x: fx, y: fy, z: fz }
    }

    /// Sums the quadrupole fields of all sources at one position; the
    /// partial sums live in wide accumulators, so the merge is exact.
    fn total_at(srcs: &Vec<(Vec3, QuadrupoleField3D)>, pos: Vec3) -> (acc: (i128, i128, i128))
        requires
            pos.in_range(),
            srcs@.len() < 0x4000_0000,
            forall|l: int|
                0 <= l < srcs@.len() ==> (#[trigger] srcs@[l]).0.in_range() && srcs@[l].1.valid(),
        ensures
            (acc.0 as int, acc.1 as int, acc.2 as int) == crate::sums::sum_contributions(
                srcs@,
                crate::magnetic::quad_contrib(pos),
            ),
    {
        let ghost f = crate::magnetic::quad_contrib(pos);
        let ghost bound: int = 74 * (MAXQ as int) * 2048;
        let mut ax: i128 = 0;
        let mut ay: i128 = 0;
        let mut az: i128 = 0;
        let n = srcs.len();
        let mut j: usize = 0;
        while j < n
            invariant
                0 <= j <= n,
                n == srcs@.len() < 0x4000_0000,
                pos.in_range(),
                bound == 74 * (MAXQ as int) * 2048,
                forall|l: int|
                    0 <= l < srcs@.len() ==> (#[trigger] srcs@[l]).0.in_range()
                        && srcs@[l].1.valid(),
                f == crate::magnetic::quad_contrib(pos),
                (ax as int, ay as int, az as int) == crate::sums::sum_contributions(
                    srcs@.subrange(0, j as int),
                    f,
                ),
                -(j * bound) <= ax <= j * bound,
                -(j * bound) <= ay <= j * bound,
                -(j * bound) <= az <= j * bound,
            decreases n - j,
        {
            let s = srcs[j];
            let field = Self::calculate_field(pos, s.0, s.1.gradient, s.1.direction);
            proof {
                assert(srcs@.subrange(0, j + 1).drop_last() =~= srcs@.subrange(0, j as int));
                assert(srcs@.subrange(0, j + 1).last() == srcs@[j as int]);
                assert(f(srcs@[j as int]) == (field.x as int, field.y as int, field.z as int));
                assert((j + 1) * bound == j * bound + bound) by (nonlinear_arith);
                assert(74 * (MAXQ as int) == 79456894976) by (nonlinear_arith);
                assert((79456894976 as int) * 2048 == 162727720910848) by (nonlinear_arith);
                assert(bound == 162727720910848);
                assert(j * bound <= 0x4000_0000 * bound && -(0x4000_0000 * bound) <= j * bound)
                    by (nonlinear_arith)
                    requires 0 <= j <= 0x4000_0000 && bound >= 0;
                assert((0x4000_0000 as int) * 162727720910848 == 174727559866176872906752)
                    by (nonlinear_arith);
            }
            ax = ax + field.x as i128;
            ay = ay + field.y as i128;
            az = az + field.z as i128;
            j = j + 1;
        }
        proof {
            assert(srcs@.subrange(0, n as int) =~= srcs@);
        }
        (ax, ay, az)
    }

    /// Adds, for every entity carrying a field sampler and a position,
    /// the summed quadrupole field of all sources at that position into
    /// the shared accumulator.
    pub fn run(w: &mut crate::ecs::World)
        requires
            old(w).wf(),
        ensures
            spec_quadrupole_run(*old(w), *final(w)),
    {
        let n = w.n_entities;
        let mut srcs: Vec<(Vec3, QuadrupoleField3D)> = Vec::new();
        let mut k: usize = 0;
        while k < n
            invariant
                0 <= k <= n,
                n == w.n_entities,
                w.wf(),
                *w == *old(w),
                srcs@ == crate::magnetic::spec_quad_sources(*w, k as int),
                forall|l: int|
                    0 <= l < srcs@.len() ==> (#[trigger] srcs@[l]).0.in_range()
                        && srcs@[l].1.valid(),
            decreases n - k,
        {
            if w.positions[k].is_some() && w.quadrupoles[k].is_some() {
                let p = w.positions[k].unwrap();
                let q = w.quadrupoles[k].unwrap();
                srcs.push((p.pos, q));
            }
            k = k + 1;
        }
        proof {
            assert(srcs@.len() < 0x4000_0000) by {
                crate::magnetic::lemma_quad_sources_len(*w, n as int);
            };
        }
        let mut i: usize = 0;
        while i < n
            invariant
                0 <= i <= n,
                n == old(w).n_entities,
                w.wf(),
                *w == (crate::ecs::World { samplers: w.samplers, ..*old(w) }),
                w.samplers@.len() == old(w).samplers@.len(),
                srcs@ == crate::magnetic::spec_quad_sources(*old(w), n as int),
                srcs@.len() < 0x4000_0000,
                forall|l: int|
                    0 <= l < srcs@.len() ==> (#[trigger] srcs@[l]).0.in_range()
                        && srcs@[l].1.valid(),
                forall|j: int| i <= j < n ==> (#[trigger] w.samplers@[j]) == old(w).samplers@[j],
                forall|j: int|
                    0 <= j < i && (#[trigger] old(w).positions@[j]) is Some && old(
                        w,
                    ).samplers@[j] is Some ==> {
                        let total = crate::magnetic::spec_quad_total(
                            *old(w),
                            old(w).positions@[j]->0.pos,
                        );
                        let prev = old(w).samplers@[j]->0.field;
                        w.samplers@[j] == Some(crate::magnetic::MagneticFieldSampler {
                            field: Vec3 {
                                x: crate::fixed::clamp64(prev.x + total.0) as i64,
                                y: crate::fixed::clamp64(prev.y + total.1) as i64,
                                z: crate::fixed::clamp64(prev.z + total.2) as i64,
                            },
                        })
                    },
                forall|j: int|
                    0 <= j < i && !((#[trigger] old(w).positions@[j]) is Some && old(
                        w,
                    ).samplers@[j] is Some) ==> w.samplers@[j] == old(w).samplers@[j],
            decreases n - i,
        {
            if w.positions[i].is_some() && w.samplers[i].is_some() {
                let pos = w.positions[i].unwrap().pos;
                let prev = w.samplers[i].unwrap().field;
                let acc = Self::total_at(&srcs, pos);
                let fx = crate::fixed::add_clamp128(prev.x, acc.0);
                let fy = crate::fixed::add_clamp128(prev.y, acc.1);
                let fz = crate::fixed::add_clamp128(prev.z, acc.2);
                w.samplers[i] = Some(crate::magnetic::MagneticFieldSampler {
                    field: Vec3 { x: fx, y: fy, z: fz },
                });
            }
            i = i + 1;
        }
    }
}

} // verus!
