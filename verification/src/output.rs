//! Detectors and per-tick output snapshots.
//!
//! A detector absorbs the particles it contains (removing their
//! `Position` and `Velocity`) and accumulates the absorbed count and the
//! summed velocity. The print/file systems compute read-only snapshot
//! records; rendering them to a console or a file belongs to the caller.

use vstd::prelude::*;
use crate::fixed::MAXQ;
use crate::fixed::UNIT;
use crate::vec3::Vec3;

verus! {

/// Aggregate statistics of the detected atoms.
#[derive(Debug, Clone, Copy, PartialEq, Eq, Structural)]
pub struct AtomOuput {
    pub number_of_atom: u64,
    pub total_velocity: Vec3,
}

/// A detector with centre at `centre` and a dimension of `2 * range`.
#[derive(Debug, Clone, Copy, PartialEq, Eq, Structural)]
pub struct Detector {
    pub centre: Vec3,
    pub range: Vec3,
}

impl Detector {
    /// A detector the containment test accepts: bounded centre and a
    /// non-negative, bounded range.
    pub open spec fn valid(self) -> bool {
        &&& self.centre.in_range()
        &&& 0 <= self.range.x <= MAXQ
        &&& 0 <= self.range.y <= MAXQ
        &&& 0 <= self.range.z <= MAXQ
    }
}

/// A detector with the shape of a ring; could be used in the "reversed"
/// simulation, or as a type of boundary in the experiment.
#[derive(Debug, Clone, Copy, PartialEq, Eq, Structural)]
pub struct RingDetector {
    pub centre: Vec3,
    /// The axis direction of the ring, a unit vector at fixed-point
    /// scale.
    pub direction: Vec3,
    /// The inner radius of the ring.
    pub radius: i64,
    /// How long the ring is in the radial direction.
    pub width: i64,
    /// Thickness of the ring in the axial direction.
    pub thickness: i64,
}

impl RingDetector {
    /// A ring the containment test accepts: bounded centre, a non-zero
    /// unit-scale axis, and non-negative bounded radii.
    pub open spec fn valid(self) -> bool {
        &&& self.centre.in_range()
        &&& -2 * (UNIT as int) <= self.direction.x <= 2 * (UNIT as int)
        &&& -2 * (UNIT as int) <= self.direction.y <= 2 * (UNIT as int)
        &&& -2 * (UNIT as int) <= self.direction.z <= 2 * (UNIT as int)
        &&& self.direction != (Vec3 { x: 0, y: 0, z: 0 })
        &&& 0 <= self.radius <= MAXQ
        &&& 0 <= self.width <= MAXQ
        &&& 0 <= self.thickness <= MAXQ
    }
}

/// Axis-box containment: the position lies strictly within `range` of
/// `centre` on every axis.
pub open spec fn spec_if_detect(d: Detector, position: Vec3) -> bool {
    &&& position.x < d.centre.x + d.range.x
    &&& position.x > d.centre.x - d.range.x
    &&& position.y < d.centre.y + d.range.y
    &&& position.y > d.centre.y - d.range.y
    &&& position.z < d.centre.z + d.range.z
    &&& position.z > d.centre.z - d.range.z
}

/// Checks whether a position lies inside an axis-box detector.
pub fn if_detect(detector: &Detector, position: &Vec3) -> (r: bool)
    requires
        detector.valid(),
        position.in_range(),
    ensures
        r == spec_if_detect(*detector, *position),
{
    let mut result = true;
    result = result && (position.x < detector.centre.x + detector.range.x) && (position.x
        > detector.centre.x - detector.range.x);
    result = result && (position.y < detector.centre.y + detector.range.y) && (position.y
        > detector.centre.y - detector.range.y);
    result = result && (position.z < detector.centre.z + detector.range.z) && (position.z
        > detector.centre.z - detector.range.z);
    result
}

/// Ring containment, on squared distances: with `rela` the offset from
/// the ring centre, `dd` the squared axis length, `dot` the raw axial
/// projection, the radial distance lies strictly between `radius` and
/// `radius + width`, and the axial distance within half the thickness of
/// the ring plane. Comparing cross-multiplied squares keeps the test
/// exact: no square root is taken.
pub open spec fn spec_if_detect_ring(d: RingDetector, position: Vec3) -> bool {
    let rx = position.x - d.centre.x;
    let ry = position.y - d.centre.y;
    let rz = position.z - d.centre.z;
    let dd = d.direction.x * d.direction.x + d.direction.y * d.direction.y + d.direction.z
        * d.direction.z;
    let dot = rx * d.direction.x + ry * d.direction.y + rz * d.direction.z;
    let rs = rx * rx + ry * ry + rz * rz;
    let radial_sq_dd = rs * dd - dot * dot;
    &&& radial_sq_dd > d.radius * d.radius * dd
    &&& radial_sq_dd < (d.radius + d.width) * (d.radius + d.width) * dd
    &&& 4 * (dot * dot) < d.thickness * d.thickness * dd
}

/// Checks whether a position lies inside a ring detector: within the
/// radial band `(radius, radius + width)` and within half the thickness
/// of the ring plane.
pub fn if_detect_ring(detector: &RingDetector, position: &Vec3) -> (r: bool)
    requires
        detector.valid(),
        position.in_range(),
    ensures
        r == spec_if_detect_ring(*detector, *position),
{
    let rx: i64 = position.x - detector.centre.x;
    let ry: i64 = position.y - detector.centre.y;
    let rz: i64 = position.z - detector.centre.z;
    let d = detector.direction;
    proof {
        let u2 = 2 * (UNIT as int);
        assert(0 <= d.x as int * d.x as int <= u2 * u2 && 0 <= d.y as int * d.y as int <= u2 * u2
            && 0 <= d.z as int * d.z as int <= u2 * u2) by (nonlinear_arith)
            requires -u2 <= d.x <= u2 && -u2 <= d.y <= u2 && -u2 <= d.z <= u2;
        let q2 = 2 * (MAXQ as int);
        assert(-(q2 * u2) <= rx as int * d.x as int <= q2 * u2 && -(q2 * u2) <= ry as int
            * d.y as int <= q2 * u2 && -(q2 * u2) <= rz as int * d.z as int <= q2 * u2)
            by (nonlinear_arith)
            requires
                -q2 <= rx <= q2 && -q2 <= ry <= q2 && -q2 <= rz <= q2 && -u2 <= d.x <= u2 && -u2
                    <= d.y <= u2 && -u2 <= d.z <= u2;
        assert(0 <= rx as int * rx as int <= q2 * q2 && 0 <= ry as int * ry as int <= q2 * q2 && 0
            <= rz as int * rz as int <= q2 * q2) by (nonlinear_arith)
            requires -q2 <= rx <= q2 && -q2 <= ry <= q2 && -q2 <= rz <= q2;
    }
    let dd: i128 = (d.x as i128) * (d.x as i128) + (d.y as i128) * (d.y as i128) + (d.z as i128)
        * (d.z as i128);
    let dot: i128 = (rx as i128) * (d.x as i128) + (ry as i128) * (d.y as i128) + (rz as i128)
        * (d.z as i128);
    let rs: i128 = (rx as i128) * (rx as i128) + (ry as i128) * (ry as i128) + (rz as i128)
        * (rz as i128);
    proof {
        let u2 = 2 * (UNIT as int);
        let q2 = 2 * (MAXQ as int);
        assert(0 <= rs as int * dd as int <= (3 * (q2 * q2)) * (3 * (u2 * u2)))
            by (nonlinear_arith)
            requires 0 <= rs <= 3 * (q2 * q2) && 0 <= dd <= 3 * (u2 * u2);
        assert(0 <= dot as int * dot as int <= (3 * (q2 * u2)) * (3 * (q2 * u2)))
            by (nonlinear_arith)
            requires -(3 * (q2 * u2)) <= dot <= 3 * (q2 * u2);
        assert(0 <= detector.radius as int * detector.radius as int <= MAXQ as int * MAXQ as int)
            by (nonlinear_arith)
            requires 0 <= detector.radius <= MAXQ;
        assert(0 <= (detector.radius as int * detector.radius as int) * dd as int <= (MAXQ as int
            * MAXQ as int) * (3 * (u2 * u2))) by (nonlinear_arith)
            requires
                0 <= detector.radius as int * detector.radius as int <= MAXQ as int * MAXQ as int
                    && 0 <= dd <= 3 * (u2 * u2);
        assert(0 <= (detector.radius as int + detector.width as int) * (detector.radius as int
            + detector.width as int) <= (2 * (MAXQ as int)) * (2 * (MAXQ as int)))
            by (nonlinear_arith)
            requires 0 <= detector.radius as int + detector.width as int <= 2 * (MAXQ as int);
        assert(0 <= ((detector.radius as int + detector.width as int) * (detector.radius as int
            + detector.width as int)) * dd as int <= ((2 * (MAXQ as int)) * (2 * (MAXQ as int)))
            * (3 * (u2 * u2))) by (nonlinear_arith)
            requires
                0 <= (detector.radius as int + detector.width as int) * (detector.radius as int
                    + detector.width as int) <= (2 * (MAXQ as int)) * (2 * (MAXQ as int)) && 0
                    <= dd <= 3 * (u2 * u2);
        assert(0 <= detector.thickness as int * detector.thickness as int <= MAXQ as int
            * MAXQ as int) by (nonlinear_arith)
            requires 0 <= detector.thickness <= MAXQ;
        assert(0 <= (detector.thickness as int * detector.thickness as int) * dd as int <= (
        MAXQ as int * MAXQ as int) * (3 * (u2 * u2))) by (nonlinear_arith)
            requires
                0 <= detector.thickness as int * detector.thickness as int <= MAXQ as int
                    * MAXQ as int && 0 <= dd <= 3 * (u2 * u2);
    }
    let radial_sq_dd: i128 = rs * dd - dot * dot;
    let radius: i128 = detector.radius as i128;
    let outer: i128 = (detector.radius as i128) + (detector.width as i128);
    let thickness: i128 = detector.thickness as i128;
    let mut result = true;
    result = result && (radial_sq_dd > radius * radius * dd);
    result = result && (radial_sq_dd < outer * outer * dd);
    result = result && (4 * (dot * dot) < thickness * thickness * dd);
    result
}

/// A per-particle snapshot record assembled by the print and file
/// output systems every hundredth step; the caller renders it.
#[derive(Debug, Clone, Copy, PartialEq, Eq, Structural)]
pub struct OutputRecord {
    /// Simulated time at this step, fixed-point seconds.
    pub time: i64,
    pub pos: Vec3,
    pub vel: Vec3,
    pub force: Vec3,
    pub kick: Vec3,
}

/// Assembles console snapshot records of the live atoms every hundredth
/// step.
pub struct PrintOutputSytem;

/// Whether some axis-box detector of the world contains this entity's
/// position.
pub open spec fn spec_detected_box(w: crate::ecs::World, i: int) -> bool {
    exists|d: int|
        0 <= d < w.n_entities && (#[trigger] w.detectors@[d]) is Some && spec_if_detect(
            w.detectors@[d]->0,
            w.positions@[i]->0.pos,
        )
}

/// Whether some ring detector of the world contains this entity's
/// position.
pub open spec fn spec_detected_ring(w: crate::ecs::World, i: int) -> bool {
    exists|d: int|
        0 <= d < w.n_entities && (#[trigger] w.ring_detectors@[d]) is Some && spec_if_detect_ring(
            w.ring_detectors@[d]->0,
            w.positions@[i]->0.pos,
        )
}

/// Whether the sweep absorbs entity `i`: it is a live particle and some
/// detector contains it.
pub open spec fn spec_detected(w: crate::ecs::World, i: int) -> bool {
    &&& w.positions@[i] is Some
    &&& w.velocities@[i] is Some
    &&& (spec_detected_box(w, i) || spec_detected_ring(w, i))
}

/// A saturating increment of the absorbed-atom counter.
pub open spec fn spec_sat_inc(c: int) -> int {
    if c >= u64::MAX {
        u64::MAX as int
    } else {
        c + 1
    }
}

/// The detector statistics after sweeping the first `k` entities:
/// count and summed velocity, accumulated in entity order on top of the
/// world's current statistics.
pub open spec fn spec_absorb_stats(w: crate::ecs::World, k: int) -> (int, int, int, int)
    decreases k,
{
    if k <= 0 {
        (
            w.atom_output.number_of_atom as int,
            w.atom_output.total_velocity.x as int,
            w.atom_output.total_velocity.y as int,
            w.atom_output.total_velocity.z as int,
        )
    } else {
        let prev = spec_absorb_stats(w, k - 1);
        if spec_detected(w, k - 1) {
            let v = w.velocities@[k - 1]->0.vel;
            (
                spec_sat_inc(prev.0),
                crate::fixed::clamp64(prev.1 + v.x),
                crate::fixed::clamp64(prev.2 + v.y),
                crate::fixed::clamp64(prev.3 + v.z),
            )
        } else {
            prev
        }
    }
}

/// The exact effect of one detector sweep: every contained particle
/// loses its position and velocity, every other particle is untouched,
/// and the statistics gain the absorbed count and summed velocity.
pub open spec fn spec_detect_run(pre: crate::ecs::World, post: crate::ecs::World) -> bool {
    &&& post.wf()
    &&& post == (crate::ecs::World {
        positions: post.positions,
        velocities: post.velocities,
        atom_output: post.atom_output,
        ..pre
    })
    &&& post.positions@.len() == pre.positions@.len()
    &&& post.velocities@.len() == pre.velocities@.len()
    &&& forall|i: int|
        0 <= i < pre.n_entities && spec_detected(pre, i) ==> (
        #[trigger] post.positions@[i]) is None && post.velocities@[i] is None
    &&& forall|i: int|
        0 <= i < pre.n_entities && !spec_detected(pre, i) ==> (
        #[trigger] post.positions@[i]) == pre.positions@[i] && post.velocities@[i]
            == pre.velocities@[i]
    &&& ({
        let stats = spec_absorb_stats(pre, pre.n_entities as int);
        post.atom_output == (AtomOuput {
            number_of_atom: stats.0 as u64,
            total_velocity: Vec3 { x: stats.1 as i64, y: stats.2 as i64, z: stats.3 as i64 },
        })
    })
}

/// Absorbs the atoms contained in a detector and accumulates their
/// count and summed velocity.
pub struct DetectingAtomSystem;

impl DetectingAtomSystem {
    /// Sweeps every live particle against every detector: a contained
    /// particle loses its `Position` and `Velocity` (it is absorbed) and
    /// its velocity joins the aggregate statistics. The structural edits
    /// are collected against a snapshot of the particle state and never
    /// interleave with the containment reads.
    pub fn run(w: &mut crate::ecs::World)
        requires
            old(w).wf(),
        ensures
            spec_detect_run(*old(w), *final(w)),
    {
        let n = w.n_entities;
        let mut count: u64 = w.atom_output.number_of_atom;
        let mut tx: i64 = w.atom_output.total_velocity.x;
        let mut ty: i64 = w.atom_output.total_velocity.y;
        let mut tz: i64 = w.atom_output.total_velocity.z;
        let mut i: usize = 0;
        while i < n
            invariant
                0 <= i <= n,
                n == old(w).n_entities,
                w.wf(),
                *w == (crate::ecs::World {
                    positions: w.positions,
                    velocities: w.velocities,
                    ..*old(w)
                }),
                w.positions@.len() == old(w).positions@.len(),
                w.velocities@.len() == old(w).velocities@.len(),
                forall|j: int| i <= j < n ==> (#[trigger] w.positions@[j]) == old(w).positions@[j],
                forall|j: int|
                    i <= j < n ==> (#[trigger] w.velocities@[j]) == old(w).velocities@[j],
                forall|j: int|
                    0 <= j < i && spec_detected(*old(w), j) ==> (
                    #[trigger] w.positions@[j]) is None,
                forall|j: int|
                    0 <= j < i && spec_detected(*old(w), j) ==> (
                    #[trigger] w.velocities@[j]) is None,
                forall|j: int|
                    0 <= j < i && !spec_detected(*old(w), j) ==> (#[trigger] w.positions@[j])
                        == old(w).positions@[j],
                forall|j: int|
                    0 <= j < i && !spec_detected(*old(w), j) ==> (#[trigger] w.velocities@[j])
                        == old(w).velocities@[j],
                (count as int, tx as int, ty as int, tz as int) == spec_absorb_stats(
                    *old(w),
                    i as int,
                ),
            decreases n - i,
        {
            if w.positions[i].is_some() && w.velocities[i].is_some() {
                let pos = w.positions[i].unwrap().pos;
                let vel = w.velocities[i].unwrap().vel;
                let mut found = false;
                let mut d: usize = 0;
                while d < n
                    invariant
                        0 <= d <= n,
                        n == old(w).n_entities,
                        w.wf(),
                        n == w.detectors@.len(),
                        pos.in_range(),
                        *w == (crate::ecs::World {
                            positions: w.positions,
                            velocities: w.velocities,
                            ..*old(w)
                        }),
                        found == exists|d2: int|
                            0 <= d2 < d && (#[trigger] w.detectors@[d2]) is Some && spec_if_detect(
                                w.detectors@[d2]->0,
                                pos,
                            ),
                    decreases n - d,
                {
                    if w.detectors[d].is_some() {
                        let det = w.detectors[d].unwrap();
                        if if_detect(&det, &pos) {
                            found = true;
                        }
                    }
                    d = d + 1;
                }
                let mut d2: usize = 0;
                while d2 < n
                    invariant
                        0 <= d2 <= n,
                        n == old(w).n_entities,
                        w.wf(),
                        n == w.ring_detectors@.len(),
                        pos.in_range(),
                        *w == (crate::ecs::World {
                            positions: w.positions,
                            velocities: w.velocities,
                            ..*old(w)
                        }),
                        found == ((exists|d3: int|
                            0 <= d3 < n && (#[trigger] w.detectors@[d3]) is Some && spec_if_detect(
                                w.detectors@[d3]->0,
                                pos,
                            )) || (exists|d3: int|
                            0 <= d3 < d2 && (#[trigger] w.ring_detectors@[d3]) is Some
                                && spec_if_detect_ring(w.ring_detectors@[d3]->0, pos))),
                    decreases n - d2,
                {
                    if w.ring_detectors[d2].is_some() {
                        let det = w.ring_detectors[d2].unwrap();
                        if if_detect_ring(&det, &pos) {
                            found = true;
                        }
                    }
                    d2 = d2 + 1;
                }
                proof {
                    assert(w.detectors@ == old(w).detectors@);
                    assert(w.ring_detectors@ == old(w).ring_detectors@);
                    assert(pos == old(w).positions@[i as int]->0.pos);
                    assert(old(w).positions@[i as int] is Some);
                    assert(old(w).velocities@[i as int] is Some);
                }
                if found {
                    proof {
                        assert(spec_detected(*old(w), i as int));
                    }
                    w.positions[i] = None;
                    w.velocities[i] = None;
                    if count < u64::MAX {
                        count = count + 1;
                    }
                    tx = crate::fixed::add_clamp64(tx, vel.x);
                    ty = crate::fixed::add_clamp64(ty, vel.y);
                    tz = crate::fixed::add_clamp64(tz, vel.z);
                } else {
                    proof {
                        assert(!spec_detected_box(*old(w), i as int)) by {
                            if spec_detected_box(*old(w), i as int) {
                                let dd = choose|dd: int|
                                    0 <= dd < old(w).n_entities && (
                                    #[trigger] old(w).detectors@[dd]) is Some && spec_if_detect(
                                        old(w).detectors@[dd]->0,
                                        old(w).positions@[i as int]->0.pos,
                                    );
                                assert(w.detectors@[dd] is Some && spec_if_detect(
                                    w.detectors@[dd]->0,
                                    pos,
                                ));
                            }
                        };
                        assert(!spec_detected_ring(*old(w), i as int)) by {
                            if spec_detected_ring(*old(w), i as int) {
                                let dd = choose|dd: int|
                                    0 <= dd < old(w).n_entities && (
                                    #[trigger] old(w).ring_detectors@[dd]) is Some
                                        && spec_if_detect_ring(
                                        old(w).ring_detectors@[dd]->0,
                                        old(w).positions@[i as int]->0.pos,
                                    );
                                assert(w.ring_detectors@[dd] is Some && spec_if_detect_ring(
                                    w.ring_detectors@[dd]->0,
                                    pos,
                                ));
                            }
                        };
                        assert(!spec_detected(*old(w), i as int));
                    }
                }
            }
            i = i + 1;
        }
        w.atom_output = AtomOuput {
            number_of_atom: count,
            total_velocity: Vec3 { x: tx, y: ty, z: tz },
        };
    }
}

/// Computes the final output of a detector: the average velocity of the
/// detected atoms.
pub struct PrintDetectSystem;

/// The snapshot records of the first `k` entities: one record per live
/// particle that carries position, velocity, force and kick.
pub open spec fn spec_output_records(w: crate::ecs::World, k: int) -> Seq<OutputRecord>
    decreases k,
{
    if k <= 0 {
        Seq::empty()
    } else {
        let rest = spec_output_records(w, k - 1);
        if w.positions@[k - 1] is Some && w.velocities@[k - 1] is Some && w.forces@[k - 1] is Some
            && w.kicks@[k - 1] is Some {
            rest.push(
                OutputRecord {
                    time: crate::fixed::clamp64(w.timestep.delta * w.step.n) as i64,
                    pos: w.positions@[k - 1]->0.pos,
                    vel: w.velocities@[k - 1]->0.vel,
                    force: w.forces@[k - 1]->0.force,
                    kick: w.kicks@[k - 1]->0.force,
                },
            )
        } else {
            rest
        }
    }
}

/// Assembles the snapshot records of one tick: every hundredth step,
/// one record per live particle; on other steps, none. Rendering the
/// records belongs to the caller.
pub fn snapshot_records(w: &crate::ecs::World) -> (r: Vec<OutputRecord>)
    requires
        w.wf(),
    ensures
        w.step.n % 100 == 0 ==> r@ == spec_output_records(*w, w.n_entities as int),
        w.step.n % 100 != 0 ==> r@.len() == 0,
{
    let mut r: Vec<OutputRecord> = Vec::new();
    if w.step.n % 100 != 0 {
        return r;
    }
    proof {
        assert(0 <= w.timestep.delta as int * w.step.n as int <= (UNIT as int)
            * 0x4000_0000_0000_0000) by (nonlinear_arith)
            requires 1 <= w.timestep.delta <= UNIT && 0 <= w.step.n < 0x4000_0000_0000_0000;
    }
    let time: i64 = crate::fixed::clamp_to_i64((w.timestep.delta as i128) * (w.step.n as i128));
    let n = w.n_entities;
    let mut k: usize = 0;
    while k < n
        invariant
            0 <= k <= n,
            n == w.n_entities,
            w.wf(),
            time == crate::fixed::clamp64(w.timestep.delta * w.step.n),
            r@ == spec_output_records(*w, k as int),
        decreases n - k,
    {
        if w.positions[k].is_some() && w.velocities[k].is_some() && w.forces[k].is_some()
            && w.kicks[k].is_some() {
            r.push(
                OutputRecord {
                    time,
                    pos: w.positions[k].unwrap().pos,
                    vel: w.velocities[k].unwrap().vel,
                    force: w.forces[k].unwrap().force,
                    kick: w.kicks[k].unwrap().force,
                },
            );
        }
        k = k + 1;
    }
    r
}

impl PrintOutputSytem {
    /// The console snapshot of this tick; the caller prints it.
    pub fn run(w: &crate::ecs::World) -> (r: Vec<OutputRecord>)
        requires
            w.wf(),
        ensures
            w.step.n % 100 == 0 ==> r@ == spec_output_records(*w, w.n_entities as int),
            w.step.n % 100 != 0 ==> r@.len() == 0,
    {
        snapshot_records(w)
    }
}

/// Assembles file snapshot records of the live atoms every hundredth
/// step.
pub struct FileOutputSystem;

impl FileOutputSystem {
    /// The file snapshot of this tick; the caller writes it out.
    pub fn run(w: &crate::ecs::World) -> (r: Vec<OutputRecord>)
        requires
            w.wf(),
        ensures
            w.step.n % 100 == 0 ==> r@ == spec_output_records(*w, w.n_entities as int),
            w.step.n % 100 != 0 ==> r@.len() == 0,
    {
        snapshot_records(w)
    }
}

/// The divisor used for the average velocity: the absorbed count,
/// saturated into the signed range.
pub open spec fn spec_avg_divisor(c: int) -> int {
    if c > i64::MAX {
        i64::MAX as int
    } else {
        c
    }
}

impl PrintDetectSystem {
    /// The average velocity of the detected atoms, or nothing when no
    /// atom was detected (guarding the division by zero).
    pub fn run(w: &crate::ecs::World) -> (r: Option<Vec3>)
        requires
            w.wf(),
        ensures
            match r {
                None => w.atom_output.number_of_atom == 0,
                Some(v) => {
                    let d = spec_avg_divisor(w.atom_output.number_of_atom as int);
                    let t = w.atom_output.total_velocity;
                    &&& w.atom_output.number_of_atom > 0
                    &&& v.x == t.x as int / d
                    &&& v.y == t.y as int / d
                    &&& v.z == t.z as int / d
                },
            },
    {
        let count = w.atom_output.number_of_atom;
        if count == 0 {
            return None;
        }
        let d: i64 = if count > i64::MAX as u64 {
            i64::MAX
        } else {
            count as i64
        };
        let t = w.atom_output.total_velocity;
        let vx = crate::fixed::floor_div128(t.x as i128, d as i128);
        let vy = crate::fixed::floor_div128(t.y as i128, d as i128);
        let vz = crate::fixed::floor_div128(t.z as i128, d as i128);
        Some(Vec3 { x: vx as i64, y: vy as i64, z: vz as i64 })
    }
}

} // verus!
