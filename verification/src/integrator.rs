//! Integration of motion.
//!
//! Two variants, as the tick pipeline requires: symplectic Euler
//! (`v' = v + (F/m) dt; x' = x + v' dt`) and velocity-Verlet
//! (`x' = x + v dt + (F/m) dt^2 / 2`, with the velocity update averaging
//! the retained previous force and the fresh one). Every step is an
//! exact fixed-point formula with explicit floors, saturating at the
//! edge of the simulated region, and runs strictly after all
//! force-aggregating systems of the tick.

use vstd::prelude::*;
use crate::atom::Force;
use crate::atom::Position;
use crate::atom::Velocity;
use crate::ecs::World;
use crate::fixed::MAXQ;
use crate::fixed::UNIT;
use crate::fixed::clamp_q;
use crate::fixed::clamp_q128;
use crate::fixed::floor_div128;
use crate::vec3::Vec3;

verus! {

/// One velocity component after a symplectic-Euler step:
/// `v + F dt / m`, floored once and saturated.
pub open spec fn spec_euler_vel(v: int, f: int, dt: int, m: int) -> int {
    clamp_q(v + (f * dt) / m)
}

/// One position component advanced by a velocity over a step:
/// `x + v dt`, floored once and saturated.
pub open spec fn spec_pos_step(x: int, v: int, dt: int) -> int {
    clamp_q(x + (v * dt) / (UNIT as int))
}

/// One velocity component of a symplectic-Euler step.
fn euler_vel(v: i64, f: i64, dt: i64, m: i64) -> (r: i64)
    requires
        -MAXQ <= v <= MAXQ,
        -MAXQ <= f <= MAXQ,
        1 <= dt <= UNIT,
        1 <= m <= MAXQ,
    ensures
        r == spec_euler_vel(v as int, f as int, dt as int, m as int),
        -MAXQ <= r <= MAXQ,
{
    proof {
        assert(-(MAXQ as int) * (UNIT as int) <= f as int * dt as int <= (MAXQ as int) * (
        UNIT as int)) by (nonlinear_arith)
            requires -MAXQ <= f <= MAXQ && 1 <= dt <= UNIT;
        assert(((MAXQ as int) * (UNIT as int)) <= ((MAXQ as int) * (UNIT as int)) * (m as int))
            by (nonlinear_arith)
            requires 1 <= m;
        crate::fixed::lemma_div_range(
            f as int * dt as int,
            m as int,
            (MAXQ as int) * (UNIT as int),
        );
    }
    let dv: i128 = floor_div128((f as i128) * (dt as i128), m as i128);
    clamp_q128((v as i128) + dv)
}

/// One position component advanced by a velocity.
fn pos_step(x: i64, v: i64, dt: i64) -> (r: i64)
    requires
        -MAXQ <= x <= MAXQ,
        -MAXQ <= v <= MAXQ,
        1 <= dt <= UNIT,
    ensures
        r == spec_pos_step(x as int, v as int, dt as int),
        -MAXQ <= r <= MAXQ,
{
    proof {
        assert(-(MAXQ as int) * (UNIT as int) <= v as int * dt as int <= (MAXQ as int) * (
        UNIT as int)) by (nonlinear_arith)
            requires -MAXQ <= v <= MAXQ && 1 <= dt <= UNIT;
        crate::fixed::lemma_div_range(v as int * dt as int, UNIT as int, MAXQ as int);
    }
    let dx: i128 = floor_div128((v as i128) * (dt as i128), UNIT as i128);
    clamp_q128((x as i128) + dx)
}

/// Whether an entity is integrated: it carries position, velocity,
/// force and mass.
pub open spec fn integrable(w: World, i: int) -> bool {
    &&& w.positions@[i] is Some
    &&& w.velocities@[i] is Some
    &&& w.forces@[i] is Some
    &&& w.masses@[i] is Some
}

/// The exact effect of one symplectic-Euler pass: only positions and
/// velocities change, and every integrable entity is advanced by
/// exactly one step (velocity from the accumulated force, position from
/// the fresh velocity); every other entity is untouched.
pub open spec fn spec_euler_run(pre: World, post: World) -> bool {
    &&& post.wf()
    &&& post == (World { positions: post.positions, velocities: post.velocities, ..pre })
    &&& post.positions@.len() == pre.positions@.len()
    &&& post.velocities@.len() == pre.velocities@.len()
    &&& forall|i: int|
        0 <= i < pre.n_entities && integrable(pre, i) ==> {
            let p = (#[trigger] pre.positions@[i])->0.pos;
            let v = pre.velocities@[i]->0.vel;
            let f = pre.forces@[i]->0.force;
            let m = pre.masses@[i]->0.value as int;
            let dt = pre.timestep.delta as int;
            let vx = spec_euler_vel(v.x as int, f.x as int, dt, m);
            let vy = spec_euler_vel(v.y as int, f.y as int, dt, m);
            let vz = spec_euler_vel(v.z as int, f.z as int, dt, m);
            &&& post.velocities@[i] == Some(Velocity {
                vel: Vec3 { x: vx as i64, y: vy as i64, z: vz as i64 },
            })
            &&& post.positions@[i] == Some(Position {
                pos: Vec3 {
                    x: spec_pos_step(p.x as int, vx, dt) as i64,
                    y: spec_pos_step(p.y as int, vy, dt) as i64,
                    z: spec_pos_step(p.z as int, vz, dt) as i64,
                },
            })
        }
    &&& forall|i: int|
        0 <= i < pre.n_entities && !integrable(pre, i) ==> {
            &&& post.positions@[i] == (#[trigger] pre.positions@[i])
            &&& post.velocities@[i] == pre.velocities@[i]
        }
}

/// The symplectic-Euler integrator: advances velocity from the
/// accumulated force, then position from the fresh velocity.
pub struct EulerIntegrationSystem;

impl EulerIntegrationSystem {
    /// Advances every integrable entity by one step; entities missing a
    /// component are untouched.
    pub fn run(w: &mut World)
        requires
            old(w).wf(),
        ensures
            spec_euler_run(*old(w), *final(w)),
    {
        let n = w.n_entities;
        let dt = w.timestep.delta;
        let mut i: usize = 0;
        while i < n
            invariant
                0 <= i <= n,
                n == old(w).n_entities,
                dt == old(w).timestep.delta,
                w.wf(),
                *w == (World {
                    positions: w.positions,
                    velocities: w.velocities,
                    ..*old(w)
                }),
                w.positions@.len() == old(w).positions@.len(),
                w.velocities@.len() == old(w).velocities@.len(),
                forall|j: int|
                    i <= j < n ==> (#[trigger] w.positions@[j]) == old(w).positions@[j],
                forall|j: int|
                    i <= j < n ==> (#[trigger] w.velocities@[j]) == old(w).velocities@[j],
                forall|j: int|
                    0 <= j < i && integrable(*old(w), j) ==> {
                        let p = (#[trigger] old(w).positions@[j])->0.pos;
                        let v = old(w).velocities@[j]->0.vel;
                        let f = old(w).forces@[j]->0.force;
                        let m = old(w).masses@[j]->0.value as int;
                        let dti = old(w).timestep.delta as int;
                        let vx = spec_euler_vel(v.x as int, f.x as int, dti, m);
                        let vy = spec_euler_vel(v.y as int, f.y as int, dti, m);
                        let vz = spec_euler_vel(v.z as int, f.z as int, dti, m);
                        &&& w.velocities@[j] == Some(Velocity {
                            vel: Vec3 { x: vx as i64, y: vy as i64, z: vz as i64 },
                        })
                        &&& w.positions@[j] == Some(Position {
                            pos: Vec3 {
                                x: spec_pos_step(p.x as int, vx, dti) as i64,
                                y: spec_pos_step(p.y as int, vy, dti) as i64,
                                z: spec_pos_step(p.z as int, vz, dti) as i64,
                            },
                        })
                    },
                forall|j: int|
                    0 <= j < i && !integrable(*old(w), j) ==> (#[trigger] w.positions@[j]) == old(
                        w,
                    ).positions@[j],
                forall|j: int|
                    0 <= j < i && !integrable(*old(w), j) ==> (#[trigger] w.velocities@[j]) == old(
                        w,
                    ).velocities@[j],
            decreases n - i,
        {
            let has_all = w.positions[i].is_some() && w.velocities[i].is_some()
                && w.forces[i].is_some() && w.masses[i].is_some();
            if has_all {
                let p = w.positions[i].unwrap();
                let v = w.velocities[i].unwrap();
                let f = w.forces[i].unwrap();
                let m = w.masses[i].unwrap();
                let vx = euler_vel(v.vel.x, f.force.x, dt, m.value);
                let vy = euler_vel(v.vel.y, f.force.y, dt, m.value);
                let vz = euler_vel(v.vel.z, f.force.z, dt, m.value);
                let nx = pos_step(p.pos.x, vx, dt);
                let ny = pos_step(p.pos.y, vy, dt);
                let nz = pos_step(p.pos.z, vz, dt);
                w.velocities[i] = Some(Velocity { vel: Vec3 { x: vx, y: vy, z: vz } });
                w.positions[i] = Some(Position { pos: Vec3 { x: nx, y: ny, z: nz } });
            }
            i = i + 1;
        }
    }
}

/// One position component after a velocity-Verlet step:
/// `x + v dt + F dt^2 / (2 m)`, floored and saturated.
pub open spec fn spec_verlet_pos(x: int, v: int, f: int, dt: int, m: int) -> int {
    clamp_q(x + (v * dt) / (UNIT as int) + (f * dt * dt) / (2 * m * (UNIT as int)))
}

/// One velocity component after a velocity-Verlet step: the average of
/// the retained previous force and the fresh force drives the update,
/// `v + (f_old + f_new) dt / (2 m)`, floored and saturated.
pub open spec fn spec_verlet_vel(v: int, f_old: int, f_new: int, dt: int, m: int) -> int {
    clamp_q(v + ((f_old + f_new) * dt) / (2 * m))
}

/// Advances the positions of the velocity-Verlet scheme; runs before
/// the tick's forces are recomputed.
pub struct VelocityVerletIntegratePositionSystem;

impl VelocityVerletIntegratePositionSystem {
    /// One position component of a velocity-Verlet step.
    pub fn position_step(x: i64, v: i64, f: i64, dt: i64, m: i64) -> (r: i64)
        requires
            -MAXQ <= x <= MAXQ,
            -MAXQ <= v <= MAXQ,
            -MAXQ <= f <= MAXQ,
            1 <= dt <= UNIT,
            1 <= m <= MAXQ,
        ensures
            r == spec_verlet_pos(x as int, v as int, f as int, dt as int, m as int),
            -MAXQ <= r <= MAXQ,
    {
        proof {
            assert(-(MAXQ as int) * (UNIT as int) <= v as int * dt as int <= (MAXQ as int) * (
            UNIT as int)) by (nonlinear_arith)
                requires -MAXQ <= v <= MAXQ && 1 <= dt <= UNIT;
            crate::fixed::lemma_div_range(v as int * dt as int, UNIT as int, MAXQ as int);
            assert(-(MAXQ as int) * (UNIT as int) <= f as int * dt as int <= (MAXQ as int) * (
            UNIT as int)) by (nonlinear_arith)
                requires -MAXQ <= f <= MAXQ && 1 <= dt <= UNIT;
            assert(-((MAXQ as int) * (UNIT as int)) * (UNIT as int) <= (f as int * dt as int)
                * dt as int <= ((MAXQ as int) * (UNIT as int)) * (UNIT as int))
                by (nonlinear_arith)
                requires
                    -(MAXQ as int) * (UNIT as int) <= f as int * dt as int <= (MAXQ as int) * (
                    UNIT as int) && 1 <= dt <= UNIT;
            assert(((MAXQ as int) * (UNIT as int)) * (UNIT as int) <= ((MAXQ as int) * (
            UNIT as int)) * (2 * m as int * (UNIT as int))) by (nonlinear_arith)
                requires 1 <= m;
            crate::fixed::lemma_div_range(
                f as int * dt as int * dt as int,
                2 * m as int * (UNIT as int),
                (MAXQ as int) * (UNIT as int),
            );
        }
        let dx1: i128 = floor_div128((v as i128) * (dt as i128), UNIT as i128);
        let dx2: i128 = floor_div128(
            (f as i128) * (dt as i128) * (dt as i128),
            2 * (m as i128) * (UNIT as i128),
        );
        clamp_q128((x as i128) + dx1 + dx2)
    }
}

/// Advances the velocities of the velocity-Verlet scheme from the
/// retained previous force and the freshly accumulated one; runs after
/// the tick's forces are recomputed.
pub struct VelocityVerletIntegrateVelocitySystem;

impl VelocityVerletIntegrateVelocitySystem {
    /// One velocity component of a velocity-Verlet step.
    pub fn velocity_step(v: i64, f_old: i64, f_new: i64, dt: i64, m: i64) -> (r: i64)
        requires
            -MAXQ <= v <= MAXQ,
            -MAXQ <= f_old <= MAXQ,
            -MAXQ <= f_new <= MAXQ,
            1 <= dt <= UNIT,
            1 <= m <= MAXQ,
        ensures
            r == spec_verlet_vel(v as int, f_old as int, f_new as int, dt as int, m as int),
            -MAXQ <= r <= MAXQ,
    {
        proof {
            assert(-(2 * (MAXQ as int)) * (UNIT as int) <= (f_old as int + f_new as int)
                * dt as int <= (2 * (MAXQ as int)) * (UNIT as int)) by (nonlinear_arith)
                requires
                    -2 * (MAXQ as int) <= f_old as int + f_new as int <= 2 * (MAXQ as int) && 1
                        <= dt <= UNIT;
            assert((2 * (MAXQ as int)) * (UNIT as int) <= ((MAXQ as int) * (UNIT as int)) * (2
                * m as int)) by (nonlinear_arith)
                requires 1 <= m;
            crate::fixed::lemma_div_range(
                (f_old as int + f_new as int) * dt as int,
                2 * (m as int),
                (MAXQ as int) * (UNIT as int),
            );
        }
        let dv: i128 = floor_div128(
            ((f_old as i128) + (f_new as i128)) * (dt as i128),
            2 * (m as i128),
        );
        clamp_q128((v as i128) + dv)
    }
}

/// The velocity of the ideal velocity-Verlet recurrence under constant
/// force after `k` steps: `v0 + k a dt`.
pub open spec fn spec_verlet_ideal_vel(v0: int, a: int, dt: int, k: nat) -> int {
    v0 + k * a * dt
}

/// Twice the position of the ideal velocity-Verlet recurrence under
/// constant force after `k` steps. Doubling keeps the half-step term
/// `a dt^2 / 2` exact over the integers.
pub open spec fn spec_verlet_ideal_x2(x0: int, v0: int, a: int, dt: int, k: nat) -> int
    decreases k,
{
    if k == 0 {
        2 * x0
    } else {
        spec_verlet_ideal_x2(x0, v0, a, dt, (k - 1) as nat) + 2 * spec_verlet_ideal_vel(
            v0,
            a,
            dt,
            (k - 1) as nat,
        ) * dt + a * dt * dt
    }
}

/// Law: under a constant force, `n` velocity-Verlet steps of size `dt`
/// reproduce the closed form `x(t) = x0 + v0 t + a t^2 / 2` with
/// `t = n dt` exactly (stated on doubled positions, so the half term is
/// an integer); the floors of the executable step are the only
/// deviation, and they are second order in `dt`.
pub proof fn lemma_verlet_constant_force(x0: int, v0: int, a: int, dt: int, n: nat)
    ensures
        spec_verlet_ideal_x2(x0, v0, a, dt, n) == 2 * x0 + 2 * v0 * (n * dt) + a * (n * dt) * (n
            * dt),
    decreases n,
{
    if n == 0 {
        assert(2 * v0 * (0 * dt) == 0) by (nonlinear_arith);
        assert(a * (0 * dt) * (0 * dt) == 0) by (nonlinear_arith);
    } else {
        let k = (n - 1) as nat;
        lemma_verlet_constant_force(x0, v0, a, dt, k);
        assert(spec_verlet_ideal_x2(x0, v0, a, dt, n) == (2 * x0 + 2 * v0 * (k * dt) + a * (k
            * dt) * (k * dt)) + 2 * (v0 + k * a * dt) * dt + a * dt * dt);
        assert((2 * x0 + 2 * v0 * (k * dt) + a * (k * dt) * (k * dt)) + 2 * (v0 + k * a * dt)
            * dt + a * dt * dt == 2 * x0 + 2 * v0 * (n * dt) + a * (n * dt) * (n * dt))
            by (nonlinear_arith)
            requires n == k + 1;
    }
}

} // verus!
