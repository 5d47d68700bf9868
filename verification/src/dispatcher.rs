//! The dependency-ordered scheduler.
//!
//! Systems are registered in a dispatch list; a system never runs
//! before every system in its declared dependency set has completed for
//! the current tick. Systems that write the same shared accumulator
//! (the magnetic sampler, the net force) compose by associative merge,
//! never last-write-wins. The scheduler injects the timestep and step
//! counter as read-only resources, runs every registered system exactly
//! once per tick, and advances the step counter between ticks.

use vstd::prelude::*;
use crate::atom::RandKick;
use crate::ecs::Step;
use crate::ecs::Timestep;
use crate::ecs::World;
use crate::output::OutputRecord;

verus! {

/// A fatal configuration error, detected at setup; the run must not
/// start.
#[derive(Debug, Clone, Copy, PartialEq, Eq, Structural)]
pub enum ConfigError {
    /// A registered system needs a component family that was never
    /// registered.
    UnregisteredComponent,
    /// An integrated particle was given a zero or negative mass.
    NonPositiveMass,
    /// The spatial partition was configured with no boxes.
    ZeroBoxNumber,
    /// A configuration value lies outside the representable range.
    OutOfRange,
}

/// Validates a particle mass at setup time: zero or negative mass is a
/// fatal configuration error.
pub fn checked_mass(value: i64) -> (r: Result<crate::atom::Mass, ConfigError>)
    ensures
        match r {
            Ok(m) => 0 < value <= crate::fixed::MAXQ && m.value == value,
            Err(e) => {
                ||| e == ConfigError::NonPositiveMass && value <= 0
                ||| e == ConfigError::OutOfRange && value > crate::fixed::MAXQ
            },
        },
{
    if value <= 0 {
        Err(ConfigError::NonPositiveMass)
    } else if value > crate::fixed::MAXQ {
        Err(ConfigError::OutOfRange)
    } else {
        Ok(crate::atom::Mass { value })
    }
}

/// Validates partition parameters at setup time: a partition with no
/// boxes is a fatal configuration error.
pub fn checked_partition_parameters(box_number: i64, box_width: i64, target_density: i64) -> (r:
    Result<crate::partition::PartitionParameters, ConfigError>)
    ensures
        match r {
            Ok(p) => {
                &&& p == (crate::partition::PartitionParameters {
                    box_number,
                    box_width,
                    target_density,
                })
                &&& p.valid()
            },
            Err(e) => {
                ||| e == ConfigError::ZeroBoxNumber && box_number <= 0
                ||| e == ConfigError::OutOfRange && box_number > 0 && !(
                crate::partition::PartitionParameters { box_number, box_width, target_density }).valid()
            },
        },
{
    if box_number <= 0 {
        Err(ConfigError::ZeroBoxNumber)
    } else if box_number > crate::partition::MAX_BOX_NUMBER || box_width < 1 || box_width
        > crate::fixed::MAXQ || target_density < 1 || target_density > crate::fixed::MAXQ {
        Err(ConfigError::OutOfRange)
    } else {
        Ok(crate::partition::PartitionParameters { box_number, box_width, target_density })
    }
}

/// Validates the timestep at setup time: it must be positive and at
/// most one second.
pub fn checked_timestep(delta: i64) -> (r: Result<Timestep, ConfigError>)
    ensures
        match r {
            Ok(t) => t.delta == delta && t.valid(),
            Err(e) => e == ConfigError::OutOfRange && !(Timestep { delta }).valid(),
        },
{
    if delta < 1 || delta > crate::fixed::UNIT {
        Err(ConfigError::OutOfRange)
    } else {
        Ok(Timestep { delta })
    }
}

/// The systems the kernel can schedule.
#[derive(Debug, Clone, Copy, PartialEq, Eq, Structural)]
pub enum SystemKind {
    SampleQuadrupoleField,
    SampleMagneticGrid,
    CalculateTwoLevelPopulation,
    UpdateRandKick,
    UpdateForce,
    EulerIntegration,
    PrintOutput,
    DetectingAtom,
    BuildSpatialPartition,
    RescalePartitionCell,
    PrintDetect,
    FileOutput,
}

/// One scheduled system with its declared dependency set.
pub struct SystemSpec {
    pub kind: SystemKind,
    pub deps: Vec<SystemKind>,
}

/// An ordered dispatch list.
pub struct Dispatcher {
    pub systems: Vec<SystemSpec>,
}

impl Dispatcher {
    /// The scheduling contract: each system appears at most once, and
    /// every declared dependency of a system appears earlier in the
    /// list, so running the list front to back never executes a system
    /// before its dependencies have completed.
    pub open spec fn well_formed(self) -> bool {
        &&& forall|i: int, j: int|
            0 <= i < j < self.systems@.len() ==> (#[trigger] self.systems@[i]).kind != (
            #[trigger] self.systems@[j]).kind
        &&& forall|i: int, d: int|
            0 <= i < self.systems@.len() && 0 <= d < self.systems@[i].deps@.len()
                ==> exists|j: int|
                0 <= j < i && (#[trigger] self.systems@[j]).kind == #[trigger] self.systems@[i].deps@[d]
    }
}

/// The component families a system needs to have registered before the
/// run starts.
pub open spec fn spec_registration_ok(r: crate::ecs::Registered, k: SystemKind) -> bool {
    match k {
        SystemKind::SampleQuadrupoleField => r.general && r.magnetic,
        SystemKind::SampleMagneticGrid => r.general && r.magnetic,
        SystemKind::CalculateTwoLevelPopulation => r.laser,
        SystemKind::UpdateRandKick => r.otherforce,
        SystemKind::UpdateForce => r.general && r.otherforce,
        SystemKind::EulerIntegration => r.general,
        SystemKind::PrintOutput => r.general,
        SystemKind::DetectingAtom => r.general && r.output,
        SystemKind::BuildSpatialPartition => r.general && r.atomcreation,
        SystemKind::RescalePartitionCell => r.general && r.atomcreation,
        SystemKind::PrintDetect => r.output,
        SystemKind::FileOutput => r.general,
    }
}

/// Whether a system's registration requirement is met; the exec twin of
/// `spec_registration_ok`.
fn registration_ok(r: crate::ecs::Registered, k: SystemKind) -> (b: bool)
    ensures
        b == spec_registration_ok(r, k),
{
    match k {
        SystemKind::SampleQuadrupoleField => r.general && r.magnetic,
        SystemKind::SampleMagneticGrid => r.general && r.magnetic,
        SystemKind::CalculateTwoLevelPopulation => r.laser,
        SystemKind::UpdateRandKick => r.otherforce,
        SystemKind::UpdateForce => r.general && r.otherforce,
        SystemKind::EulerIntegration => r.general,
        SystemKind::PrintOutput => r.general,
        SystemKind::DetectingAtom => r.general && r.output,
        SystemKind::BuildSpatialPartition => r.general && r.atomcreation,
        SystemKind::RescalePartitionCell => r.general && r.atomcreation,
        SystemKind::PrintDetect => r.output,
        SystemKind::FileOutput => r.general,
    }
}

/// Checks, before the run starts, that every scheduled system has its
/// component families registered: a missing registration is a fatal
/// setup-time error, never a mid-tick fault.
pub fn validate_setup(w: &World, d: &Dispatcher) -> (r: Result<(), ConfigError>)
    ensures
        r is Ok <==> (forall|i: int|
            0 <= i < d.systems@.len() ==> spec_registration_ok(
                w.registered,
                (#[trigger] d.systems@[i]).kind,
            )),
        r is Err ==> r->Err_0 == ConfigError::UnregisteredComponent,
{
    let n = d.systems.len();
    let mut i: usize = 0;
    while i < n
        invariant
            0 <= i <= n,
            n == d.systems@.len(),
            forall|j: int|
                0 <= j < i ==> spec_registration_ok(
                    w.registered,
                    (#[trigger] d.systems@[j]).kind,
                ),
        decreases n - i,
    {
        if !registration_ok(w.registered, d.systems[i].kind) {
            return Err(ConfigError::UnregisteredComponent);
        }
        i = i + 1;
    }
    Ok(())
}

/// The general update tail of the pipeline: kicks, then the force sum,
/// then integration, then the output and detector sweeps.
fn add_systems_to_dispatch_general_update(mut systems: Vec<SystemSpec>, dep: SystemKind) -> (r:
    Vec<SystemSpec>)
    ensures
        r@.len() == systems@.len() + 7,
        forall|i: int| 0 <= i < systems@.len() ==> #[trigger] r@[i] == systems@[i],
        r@[systems@.len() as int].kind == SystemKind::UpdateRandKick,
        r@[systems@.len() as int].deps@ == seq![dep],
        r@[systems@.len() as int + 1].kind == SystemKind::UpdateForce,
        r@[systems@.len() as int + 1].deps@ == seq![SystemKind::UpdateRandKick],
        r@[systems@.len() as int + 2].kind == SystemKind::EulerIntegration,
        r@[systems@.len() as int + 2].deps@ == seq![SystemKind::UpdateForce],
        r@[systems@.len() as int + 3].kind == SystemKind::PrintOutput,
        r@[systems@.len() as int + 3].deps@ == seq![SystemKind::EulerIntegration],
        r@[systems@.len() as int + 4].kind == SystemKind::DetectingAtom,
        r@[systems@.len() as int + 4].deps@ == seq![SystemKind::EulerIntegration],
        r@[systems@.len() as int + 5].kind == SystemKind::BuildSpatialPartition,
        r@[systems@.len() as int + 5].deps@ == seq![SystemKind::DetectingAtom],
        r@[systems@.len() as int + 6].kind == SystemKind::RescalePartitionCell,
        r@[systems@.len() as int + 6].deps@ == seq![SystemKind::BuildSpatialPartition],
{
    let mut deps0: Vec<SystemKind> = Vec::new();
    deps0.push(dep);
    systems.push(SystemSpec { kind: SystemKind::UpdateRandKick, deps: deps0 });
    let mut deps1: Vec<SystemKind> = Vec::new();
    deps1.push(SystemKind::UpdateRandKick);
    systems.push(SystemSpec { kind: SystemKind::UpdateForce, deps: deps1 });
    let mut deps2: Vec<SystemKind> = Vec::new();
    deps2.push(SystemKind::UpdateForce);
    systems.push(SystemSpec { kind: SystemKind::EulerIntegration, deps: deps2 });
    let mut deps3: Vec<SystemKind> = Vec::new();
    deps3.push(SystemKind::EulerIntegration);
    systems.push(SystemSpec { kind: SystemKind::PrintOutput, deps: deps3 });
    let mut deps4: Vec<SystemKind> = Vec::new();
    deps4.push(SystemKind::EulerIntegration);
    systems.push(SystemSpec { kind: SystemKind::DetectingAtom, deps: deps4 });
    let mut deps5: Vec<SystemKind> = Vec::new();
    deps5.push(SystemKind::DetectingAtom);
    systems.push(SystemSpec { kind: SystemKind::BuildSpatialPartition, deps: deps5 });
    let mut deps6: Vec<SystemKind> = Vec::new();
    deps6.push(SystemKind::BuildSpatialPartition);
    systems.push(SystemSpec { kind: SystemKind::RescalePartitionCell, deps: deps6 });
    systems
}

/// Builds the running dispatcher: the magnetic stage, the laser stage
/// (which depends on the sampled field), and the general update tail.
pub fn create_dispatcher_running() -> (d: Dispatcher)
    ensures
        d.well_formed(),
        d.systems@.len() == 10,
        d.systems@[0].kind == SystemKind::SampleQuadrupoleField,
        d.systems@[1].kind == SystemKind::SampleMagneticGrid,
        d.systems@[2].kind == SystemKind::CalculateTwoLevelPopulation,
        d.systems@[3].kind == SystemKind::UpdateRandKick,
        d.systems@[4].kind == SystemKind::UpdateForce,
        d.systems@[5].kind == SystemKind::EulerIntegration,
        d.systems@[6].kind == SystemKind::PrintOutput,
        d.systems@[7].kind == SystemKind::DetectingAtom,
        d.systems@[8].kind == SystemKind::BuildSpatialPartition,
        d.systems@[9].kind == SystemKind::RescalePartitionCell,
{
    let mut systems: Vec<SystemSpec> = Vec::new();
    systems.push(SystemSpec { kind: SystemKind::SampleQuadrupoleField, deps: Vec::new() });
    let mut deps_grid: Vec<SystemKind> = Vec::new();
    deps_grid.push(SystemKind::SampleQuadrupoleField);
    systems.push(SystemSpec { kind: SystemKind::SampleMagneticGrid, deps: deps_grid });
    let mut deps_laser: Vec<SystemKind> = Vec::new();
    deps_laser.push(SystemKind::SampleMagneticGrid);
    systems.push(SystemSpec { kind: SystemKind::CalculateTwoLevelPopulation, deps: deps_laser });
    let systems = add_systems_to_dispatch_general_update(
        systems,
        SystemKind::CalculateTwoLevelPopulation,
    );
    let d = Dispatcher { systems };
    proof {
        assert forall|i: int, dd: int|
            0 <= i < d.systems@.len() && 0 <= dd < d.systems@[i].deps@.len() implies exists|
            j: int,
        |
            0 <= j < i && (#[trigger] d.systems@[j]).kind == #[trigger] d.systems@[i].deps@[dd] by {
            if i == 1 {
                assert(d.systems@[0].kind == d.systems@[1].deps@[dd]);
            } else if i == 2 {
                assert(d.systems@[1].kind == d.systems@[2].deps@[dd]);
            } else if i == 3 {
                assert(d.systems@[2].kind == d.systems@[3].deps@[dd]);
            } else if i == 4 {
                assert(d.systems@[3].kind == d.systems@[4].deps@[dd]);
            } else if i == 5 {
                assert(d.systems@[4].kind == d.systems@[5].deps@[dd]);
            } else if i == 6 {
                assert(d.systems@[5].kind == d.systems@[6].deps@[dd]);
            } else if i == 7 {
                assert(d.systems@[5].kind == d.systems@[7].deps@[dd]);
            } else if i == 8 {
                assert(d.systems@[7].kind == d.systems@[8].deps@[dd]);
            } else if i == 9 {
                assert(d.systems@[8].kind == d.systems@[9].deps@[dd]);
            }
        }
    }
    d
}

/// The per-tick record batches, concatenated in system order.
pub open spec fn spec_concat_batches(batches: Seq<Seq<OutputRecord>>) -> Seq<OutputRecord>
    decreases batches.len(),
{
    if batches.len() == 0 {
        Seq::empty()
    } else {
        spec_concat_batches(batches.drop_last()) + batches.last()
    }
}

/// The exact effect of one scheduled system on the store, together
/// with the snapshot records it emits: each arm is the effect relation
/// that system's `run` ensures. The read-only output systems leave the
/// store unchanged and emit the snapshot of the state they ran on.
pub open spec fn spec_apply_system(
    pre: World,
    post: World,
    k: SystemKind,
    kicks: Seq<RandKick>,
    recs: Seq<OutputRecord>,
) -> bool {
    match k {
        SystemKind::SampleQuadrupoleField => crate::quadrupole::spec_quadrupole_run(pre, post)
            && recs == Seq::<OutputRecord>::empty(),
        SystemKind::SampleMagneticGrid => crate::grid::spec_grid_run(pre, post) && recs
            == Seq::<OutputRecord>::empty(),
        SystemKind::CalculateTwoLevelPopulation => crate::twolevel::spec_twolevel_run(pre, post)
            && recs == Seq::<OutputRecord>::empty(),
        SystemKind::UpdateRandKick => crate::forces::spec_kick_run(pre, post, kicks) && recs
            == Seq::<OutputRecord>::empty(),
        SystemKind::UpdateForce => crate::forces::spec_force_run(pre, post) && recs
            == Seq::<OutputRecord>::empty(),
        SystemKind::EulerIntegration => crate::integrator::spec_euler_run(pre, post) && recs
            == Seq::<OutputRecord>::empty(),
        SystemKind::PrintOutput => post == pre && recs == (
        if pre.step.n % 100 == 0 {
            crate::output::spec_output_records(pre, pre.n_entities as int)
        } else {
            Seq::<OutputRecord>::empty()
        }),
        SystemKind::DetectingAtom => crate::output::spec_detect_run(pre, post) && recs
            == Seq::<OutputRecord>::empty(),
        SystemKind::BuildSpatialPartition => crate::partition::spec_build_run(pre, post) && recs
            == Seq::<OutputRecord>::empty(),
        SystemKind::RescalePartitionCell => (exists|ids: Seq<i64>, c: int|
            #[trigger] crate::partition::spec_rescale_run(pre, post, ids, c)) && recs
            == Seq::<OutputRecord>::empty(),
        SystemKind::PrintDetect => post == pre && recs == Seq::<OutputRecord>::empty(),
        SystemKind::FileOutput => post == pre && recs == (
        if pre.step.n % 100 == 0 {
            crate::output::spec_output_records(pre, pre.n_entities as int)
        } else {
            Seq::<OutputRecord>::empty()
        }),
    }
}

/// Law: one dispatch of the running pipeline advances every integrable
/// particle by exactly one symplectic-Euler step, strictly after the
/// tick's force aggregation: instantiating the tick trace at the force
/// and integration stages yields their effect relations, so the
/// integrated state is the Euler step of the post-aggregation state.
pub proof fn lemma_tick_integrates(
    d: Dispatcher,
    trace: Seq<World>,
    batches: Seq<Seq<OutputRecord>>,
    kicks: Seq<RandKick>,
)
    requires
        d.systems@.len() == 10,
        d.systems@[4].kind == SystemKind::UpdateForce,
        d.systems@[5].kind == SystemKind::EulerIntegration,
        trace.len() == d.systems@.len() + 1,
        batches.len() == d.systems@.len(),
        forall|i: int|
            0 <= i < d.systems@.len() ==> spec_apply_system(
                trace[i],
                trace[i + 1],
                (#[trigger] d.systems@[i]).kind,
                kicks,
                batches[i],
            ),
    ensures
        crate::forces::spec_force_run(trace[4], trace[5]),
        crate::integrator::spec_euler_run(trace[5], trace[6]),
{
    assert(spec_apply_system(trace[4], trace[5], d.systems@[4].kind, kicks, batches[4]));
    assert(spec_apply_system(trace[5], trace[6], d.systems@[5].kind, kicks, batches[5]));
}

/// Runs every system of the dispatch list exactly once, in list order
/// (honouring the dependency contract proved at build time), then
/// advances the step counter. The externally drawn kicks of this tick
/// are handed in as plain values; the snapshot records assembled by the
/// output systems are handed back for the caller to render.
///
/// The contract fixes the post-state as the composition of the
/// systems' specified effects in list order on the entry state: the
/// ghost witness is the trace of intermediate states and the record
/// batch each system emitted, chained by `spec_apply_system`; the final
/// store is the last traced state with the step counter advanced, and
/// the returned records are the batches concatenated.
pub fn run_tick(w: &mut World, d: &Dispatcher, kicks: &Vec<RandKick>) -> (r: (
    Vec<OutputRecord>,
    Ghost<(Seq<World>, Seq<Seq<OutputRecord>>)>,
))
    requires
        old(w).wf(),
        d.well_formed(),
        kicks@.len() == old(w).n_entities,
        forall|i: int| 0 <= i < kicks@.len() ==> (#[trigger] kicks@[i]).force.in_range(),
        old(w).step.n + 1 < 0x4000_0000_0000_0000,
    ensures
        final(w).wf(),
        final(w).n_entities == old(w).n_entities,
        final(w).step.n == old(w).step.n + 1,
        ({
            let trace = r.1@.0;
            let batches = r.1@.1;
            &&& trace.len() == d.systems@.len() + 1
            &&& batches.len() == d.systems@.len()
            &&& trace[0] == *old(w)
            &&& forall|i: int|
                0 <= i < d.systems@.len() ==> spec_apply_system(
                    trace[i],
                    trace[i + 1],
                    (#[trigger] d.systems@[i]).kind,
                    kicks@,
                    batches[i],
                )
            &&& *final(w) == (World {
                step: Step { n: (old(w).step.n + 1) as i64 },
                ..trace[d.systems@.len() as int]
            })
            &&& r.0@ == spec_concat_batches(batches)
        }),
{
    let n = d.systems.len();
    let mut records: Vec<OutputRecord> = Vec::new();
    let ghost mut trace: Seq<World> = seq![*w];
    let ghost mut batches: Seq<Seq<OutputRecord>> = Seq::empty();
    let mut i: usize = 0;
    while i < n
        invariant
            0 <= i <= n,
            n == d.systems@.len(),
            w.wf(),
            w.n_entities == old(w).n_entities,
            w.step == old(w).step,
            kicks@.len() == old(w).n_entities,
            forall|l: int| 0 <= l < kicks@.len() ==> (#[trigger] kicks@[l]).force.in_range(),
            trace.len() == i + 1,
            batches.len() == i,
            trace[0] == *old(w),
            trace[i as int] == *w,
            forall|j: int|
                0 <= j < i ==> spec_apply_system(
                    trace[j],
                    trace[j + 1],
                    (#[trigger] d.systems@[j]).kind,
                    kicks@,
                    batches[j],
                ),
            records@ == spec_concat_batches(batches),
        decreases n - i,
    {
        let ghost pre = *w;
        let ghost mut batch: Seq<OutputRecord> = Seq::empty();
        match d.systems[i].kind {
            SystemKind::SampleQuadrupoleField => {
                crate::quadrupole::Sample3DQuadrupoleFieldSystem::run(w);
                proof {
                    assert(spec_apply_system(pre, *w, SystemKind::SampleQuadrupoleField, kicks@,
                    batch));
                }
            },
            SystemKind::SampleMagneticGrid => {
                crate::grid::SampleMagneticGridSystem::run(w);
                proof {
                    assert(spec_apply_system(pre, *w, SystemKind::SampleMagneticGrid, kicks@,
                    batch));
                }
            },
            SystemKind::CalculateTwoLevelPopulation => {
                crate::twolevel::CalculateTwoLevelPopulationSystem::run(w);
                proof {
                    assert(spec_apply_system(pre, *w, SystemKind::CalculateTwoLevelPopulation,
                    kicks@, batch));
                }
            },
            SystemKind::UpdateRandKick => {
                crate::forces::UpdateRandKick::run(w, kicks);
                proof {
                    assert(spec_apply_system(pre, *w, SystemKind::UpdateRandKick, kicks@, batch));
                }
            },
            SystemKind::UpdateForce => {
                crate::forces::UpdateForce::run(w);
                proof {
                    assert(spec_apply_system(pre, *w, SystemKind::UpdateForce, kicks@, batch));
                }
            },
            SystemKind::EulerIntegration => {
                crate::integrator::EulerIntegrationSystem::run(w);
                proof {
                    assert(spec_apply_system(pre, *w, SystemKind::EulerIntegration, kicks@,
                    batch));
                }
            },
            SystemKind::PrintOutput => {
                let mut r = crate::output::PrintOutputSytem::run(w);
                proof {
                    batch = r@;
                }
                records.append(&mut r);
                proof {
                    if pre.step.n % 100 != 0 {
                        assert(batch =~= Seq::<OutputRecord>::empty());
                    }
                    assert(spec_apply_system(pre, *w, SystemKind::PrintOutput, kicks@, batch));
                }
            },
            SystemKind::DetectingAtom => {
                crate::output::DetectingAtomSystem::run(w);
                proof {
                    assert(spec_apply_system(pre, *w, SystemKind::DetectingAtom, kicks@, batch));
                }
            },
            SystemKind::BuildSpatialPartition => {
                crate::partition::BuildSpatialPartitionSystem::run(w);
                proof {
                    assert(spec_apply_system(pre, *w, SystemKind::BuildSpatialPartition, kicks@,
                    batch));
                }
            },
            SystemKind::RescalePartitionCell => {
                let witness = crate::partition::RescalePartitionCellSystem::run(w);
                proof {
                    assert(crate::partition::spec_rescale_run(pre, *w, witness@.0, witness@.1));
                    assert(spec_apply_system(pre, *w, SystemKind::RescalePartitionCell, kicks@,
                    batch));
                }
            },
            SystemKind::PrintDetect => {
                let _avg = crate::output::PrintDetectSystem::run(w);
                proof {
                    assert(spec_apply_system(pre, *w, SystemKind::PrintDetect, kicks@, batch));
                }
            },
            SystemKind::FileOutput => {
                let mut r = crate::output::FileOutputSystem::run(w);
                proof {
                    batch = r@;
                }
                records.append(&mut r);
                proof {
                    if pre.step.n % 100 != 0 {
                        assert(batch =~= Seq::<OutputRecord>::empty());
                    }
                    assert(spec_apply_system(pre, *w, SystemKind::FileOutput, kicks@, batch));
                }
            },
        }
        proof {
            assert(spec_apply_system(pre, *w, d.systems@[i as int].kind, kicks@, batch));
            let old_batches = batches;
            let ghost old_concat = spec_concat_batches(batches);
            trace = trace.push(*w);
            batches = batches.push(batch);
            assert(batches.drop_last() =~= old_batches);
            assert(batches.last() == batch);
            assert(spec_concat_batches(batches) == old_concat + batch);
            assert(records@ =~= old_concat + batch);
        }
        i = i + 1;
    }
    let next = Step { n: w.step.n + 1 };
    w.step = next;
    proof {
        assert(trace[n as int] == (World { step: old(w).step, ..*final(w) }));
    }
    (records, Ghost((trace, batches)))
}

} // verus!
