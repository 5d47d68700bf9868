//! Force aggregation: the per-tick net force accumulator.
//!
//! Each tick the accumulator of every entity that carries one is
//! recomputed from the contributions present: uniform gravity (for
//! entities marked `Gravity`, scaled by their mass) and the externally
//! supplied stochastic kick. The merge is plain addition, so it is
//! associative and commutative and the result does not depend on the
//! order contributions are taken in.

use vstd::prelude::*;
use crate::atom::Force;
use crate::atom::RandKick;
use crate::ecs::World;
use crate::fixed::G_FP;
use crate::fixed::MAXQ;
use crate::fixed::UNIT;
use crate::fixed::clamp_q;
use crate::fixed::clamp_q128;
use crate::fixed::floor_div128;
use crate::vec3::Vec3;

verus! {

/// The net force on an entity: the kick, plus gravity `-m g` on the
/// vertical axis when the entity feels gravity; saturated onto the
/// stored range.
pub open spec fn spec_net_force(grav: bool, m: int, kick: Vec3) -> (int, int, int) {
    let gz = if grav {
        -((m * G_FP) / (UNIT as int))
    } else {
        0
    };
    (kick.x as int, kick.y as int, clamp_q(gz + kick.z))
}

/// The exact effect of installing one tick's externally drawn kicks:
/// only the kick accumulators change, and every entity that carries one
/// receives the drawn value at its index.
pub open spec fn spec_kick_run(pre: World, post: World, new_kicks: Seq<RandKick>) -> bool {
    &&& post.wf()
    &&& post == (World { kicks: post.kicks, ..pre })
    &&& post.kicks@.len() == pre.kicks@.len()
    &&& forall|i: int|
        0 <= i < pre.n_entities ==> post.kicks@[i] == (
        if (#[trigger] pre.kicks@[i]) is Some {
            Some(new_kicks[i])
        } else {
            None
        })
}

/// Replaces every present kick accumulator with the externally drawn
/// kick for this tick. Randomness is drawn outside the kernel; the
/// kernel is verified for every value handed in.
pub struct UpdateRandKick;

impl UpdateRandKick {
    pub fn run(w: &mut World, new_kicks: &Vec<RandKick>)
        requires
            old(w).wf(),
            new_kicks@.len() == old(w).n_entities,
            forall|i: int|
                0 <= i < new_kicks@.len() ==> (#[trigger] new_kicks@[i]).force.in_range(),
        ensures
            spec_kick_run(*old(w), *final(w), new_kicks@),
    {
        let n = w.n_entities;
        let mut i: usize = 0;
        while i < n
            invariant
                0 <= i <= n,
                n == old(w).n_entities,
                w.wf(),
                *w == (World { kicks: w.kicks, ..*old(w) }),
                w.kicks@.len() == old(w).kicks@.len(),
                new_kicks@.len() == old(w).n_entities,
                forall|j: int|
                    0 <= j < new_kicks@.len() ==> (#[trigger] new_kicks@[j]).force.in_range(),
                forall|j: int| i <= j < n ==> (#[trigger] w.kicks@[j]) == old(w).kicks@[j],
                forall|j: int|
                    0 <= j < i ==> (#[trigger] w.kicks@[j]) == (
                    if old(w).kicks@[j] is Some {
                        Some(new_kicks@[j])
                    } else {
                        None
                    }),
            decreases n - i,
        {
            if w.kicks[i].is_some() {
                w.kicks[i] = Some(new_kicks[i]);
            }
            i = i + 1;
        }
    }
}

/// The exact effect of one force-aggregation pass: only the force
/// accumulators change, and every entity that carries one receives the
/// net force of its present contributions.
pub open spec fn spec_force_run(pre: World, post: World) -> bool {
    &&& post.wf()
    &&& post == (World { forces: post.forces, ..pre })
    &&& post.forces@.len() == pre.forces@.len()
    &&& forall|i: int|
        0 <= i < pre.n_entities && (#[trigger] pre.forces@[i]) is Some ==> {
            let grav = pre.gravities@[i] is Some && pre.masses@[i] is Some;
            let m = if pre.masses@[i] is Some {
                pre.masses@[i]->0.value as int
            } else {
                0
            };
            let kick = if pre.kicks@[i] is Some {
                pre.kicks@[i]->0.force
            } else {
                (Vec3 { x: 0, y: 0, z: 0 })
            };
            let f = spec_net_force(grav, m, kick);
            post.forces@[i] == Some(Force {
                force: Vec3 { x: f.0 as i64, y: f.1 as i64, z: f.2 as i64 },
            })
        }
    &&& forall|i: int|
        0 <= i < pre.n_entities && !((#[trigger] pre.forces@[i]) is Some) ==> post.forces@[i]
            == pre.forces@[i]
}

/// Recomputes the net force accumulator of every entity that carries
/// one, from gravity and the current kick.
pub struct UpdateForce;

impl UpdateForce {
    pub fn run(w: &mut World)
        requires
            old(w).wf(),
        ensures
            spec_force_run(*old(w), *final(w)),
    {
        let n = w.n_entities;
        let mut i: usize = 0;
        while i < n
            invariant
                0 <= i <= n,
                n == old(w).n_entities,
                w.wf(),
                *w == (World { forces: w.forces, ..*old(w) }),
                w.forces@.len() == old(w).forces@.len(),
                forall|j: int| i <= j < n ==> (#[trigger] w.forces@[j]) == old(w).forces@[j],
                forall|j: int|
                    0 <= j < i && (#[trigger] old(w).forces@[j]) is Some ==> {
                        let grav = old(w).gravities@[j] is Some && old(w).masses@[j] is Some;
                        let m = if old(w).masses@[j] is Some {
                            old(w).masses@[j]->0.value as int
                        } else {
                            0
                        };
                        let kick = if old(w).kicks@[j] is Some {
                            old(w).kicks@[j]->0.force
                        } else {
                            (Vec3 { x: 0, y: 0, z: 0 })
                        };
                        let f = spec_net_force(grav, m, kick);
                        w.forces@[j] == Some(Force {
                            force: Vec3 { x: f.0 as i64, y: f.1 as i64, z: f.2 as i64 },
                        })
                    },
                forall|j: int|
                    0 <= j < i && !((#[trigger] old(w).forces@[j]) is Some) ==> w.forces@[j]
                        == old(w).forces@[j],
            decreases n - i,
        {
            if w.forces[i].is_some() {
                let kick: Vec3 = match w.kicks[i] {
                    Some(k) => k.force,
                    None => Vec3 { x: 0, y: 0, z: 0 },
                };
                let grav = w.gravities[i].is_some() && w.masses[i].is_some();
                let gz: i64 = if grav {
                    let m = w.masses[i].unwrap().value;
                    proof {
                        assert(0 <= m as int * G_FP as int <= (MAXQ as int) * (G_FP as int))
                            by (nonlinear_arith)
                            requires 0 <= m <= MAXQ;
                        crate::fixed::lemma_div_range(
                            m as int * G_FP as int,
                            UNIT as int,
                            (MAXQ as int) * (G_FP as int),
                        );
                    }
                    let g: i128 = floor_div128((m as i128) * (G_FP as i128), UNIT as i128);
                    let r: i64 = -(g as i64);
                    r
                } else {
                    0
                };
                let fz = clamp_q128((gz as i128) + (kick.z as i128));
                w.forces[i] = Some(Force { force: Vec3 { x: kick.x, y: kick.y, z: fz } });
            }
            i = i + 1;
        }
    }
}

} // verus!
