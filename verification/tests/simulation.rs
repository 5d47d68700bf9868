//! End-to-end tests of the tick pipeline over the entity store.

use coldatoms::atom::Atom;
use coldatoms::atom::AtomicTransition;
use coldatoms::atom::Force;
use coldatoms::atom::Gravity;
use coldatoms::atom::Mass;
use coldatoms::atom::Position;
use coldatoms::atom::RandKick;
use coldatoms::atom::Velocity;
use coldatoms::cellmap::cell_map_get;
use coldatoms::cellmap::cell_map_ids;
use coldatoms::dispatcher::checked_mass;
use coldatoms::dispatcher::checked_partition_parameters;
use coldatoms::dispatcher::checked_timestep;
use coldatoms::dispatcher::create_dispatcher_running;
use coldatoms::dispatcher::run_tick;
use coldatoms::dispatcher::validate_setup;
use coldatoms::dispatcher::ConfigError;
use coldatoms::ecs::register_lazy;
use coldatoms::ecs::register_resources_lazy;
use coldatoms::ecs::Timestep;
use coldatoms::ecs::World;
use coldatoms::fixed::UNIT;
use coldatoms::integrator::VelocityVerletIntegratePositionSystem;
use coldatoms::integrator::VelocityVerletIntegrateVelocitySystem;
use coldatoms::magnetic::MagneticFieldSampler;
use coldatoms::output::Detector;
use coldatoms::output::DetectingAtomSystem;
use coldatoms::output::PrintDetectSystem;
use coldatoms::output::PrintOutputSytem;
use coldatoms::partition::BuildSpatialPartitionSystem;
use coldatoms::partition::RescalePartitionCellSystem;
use coldatoms::partition::SENTINEL_ID;
use coldatoms::quadrupole::QuadrupoleField3D;
use coldatoms::quadrupole::Sample3DQuadrupoleFieldSystem;
use coldatoms::twolevel::CalculateTwoLevelPopulationSystem;
use coldatoms::twolevel::RateCoefficient;
use coldatoms::twolevel::RateCoefficients;
use coldatoms::twolevel::TwoLevelPopulation;
use coldatoms::vec3::Vec3;

const M: i64 = UNIT;

fn zero3() -> Vec3 {
    Vec3::new(0, 0, 0)
}

/// A world with everything registered and default resources.
fn fresh_world() -> World {
    let mut w = World::new();
    register_lazy(&mut w);
    register_resources_lazy(&mut w);
    w
}

fn add_particle(w: &mut World, pos: Vec3, vel: Vec3, mass: i64) -> usize {
    let id = w.new_entity();
    w.set_position(id, Position { pos });
    w.set_velocity(id, Velocity { vel });
    w.set_mass(id, Mass { value: mass });
    w.set_force(id, Force { force: zero3() });
    w.set_atom(id, Atom);
    id
}

/// A particle at rest at the origin under gravity only falls
/// `0.5 g t^2` within integration error over a hundred millisecond
/// steps.
#[test]
fn test_gravity_fall() {
    let mut w = fresh_world();
    w.timestep = checked_timestep(1_000).unwrap();
    let id = add_particle(&mut w, zero3(), zero3(), 1 * M);
    w.set_gravity(id, Gravity);
    let d = create_dispatcher_running();
    assert!(validate_setup(&w, &d).is_ok());
    let kicks = vec![RandKick { force: zero3() }];
    for _ in 0..100 {
        let (_records, _trace) = run_tick(&mut w, &d, &kicks);
    }
    assert_eq!(w.step.n, 100);
    let pos = w.positions[id].unwrap().pos;
    // 0.5 * 9.81 * 0.1^2 m is 49050 at fixed-point scale; symplectic
    // Euler overshoots by about g dt t / 2, i.e. about 490.
    let expected: i64 = -49_050;
    assert!((pos.z - expected).abs() <= 600, "fell to {}", pos.z);
    assert_eq!(pos.x, 0);
    assert_eq!(pos.y, 0);
}

/// A particle permanently outside the declared partition extent is
/// always sentinel-tagged and never counted in the occupancy.
#[test]
fn test_partition_sentinel_exclusion() {
    let mut w = fresh_world();
    w.partition_params = checked_partition_parameters(10, 2 * M, 30 * M).unwrap();
    let inside = add_particle(&mut w, zero3(), zero3(), 1 * M);
    let outside = add_particle(&mut w, Vec3::new(100 * M, 0, 0), zero3(), 1 * M);
    BuildSpatialPartitionSystem::run(&mut w);
    assert_eq!(w.boxids[inside].unwrap().id, 555);
    assert_eq!(w.boxids[outside].unwrap().id, SENTINEL_ID);
    // The sentinel id never appears as a cell.
    assert!(cell_map_get(&w.hashmap.hashmap, SENTINEL_ID).is_none());
    // Only the inside particle is counted.
    let ids = cell_map_ids(&w.hashmap.hashmap);
    assert_eq!(ids.len(), 1);
    let cell = cell_map_get(&w.hashmap.hashmap, 555).unwrap();
    assert_eq!(cell.particle_number, 1);
    assert_eq!(cell.velocities.len(), 1);
}

/// Two atoms in one cell are grouped together with their velocities.
#[test]
fn test_partition_groups_velocities() {
    let mut w = fresh_world();
    w.partition_params = checked_partition_parameters(10, 2 * M, 30 * M).unwrap();
    add_particle(&mut w, zero3(), Vec3::new(1, 2, 3), 1 * M);
    add_particle(&mut w, Vec3::new(500_000, 0, 0), Vec3::new(4, 5, 6), 1 * M);
    add_particle(&mut w, Vec3::new(2 * M, 0, 0), Vec3::new(7, 8, 9), 1 * M);
    BuildSpatialPartitionSystem::run(&mut w);
    let cell = cell_map_get(&w.hashmap.hashmap, 555).unwrap();
    assert_eq!(cell.particle_number, 2);
    assert_eq!(cell.velocities[0].vel, Vec3::new(1, 2, 3));
    assert_eq!(cell.velocities[1].vel, Vec3::new(4, 5, 6));
    let other = cell_map_get(&w.hashmap.hashmap, 556).unwrap();
    assert_eq!(other.particle_number, 1);
    assert_eq!(other.velocities[0].vel, Vec3::new(7, 8, 9));
}

/// Rescaling is skipped entirely when there are no occupied cells.
#[test]
fn test_rescale_skips_empty_partition() {
    let mut w = fresh_world();
    let before = w.partition_params;
    RescalePartitionCellSystem::run(&mut w);
    assert_eq!(w.partition_params, before);
}

/// Rescaling moves the box width towards the target density.
#[test]
fn test_rescale_adjusts_width() {
    let mut w = fresh_world();
    w.partition_params = checked_partition_parameters(10, 2 * M, 30 * M).unwrap();
    add_particle(&mut w, zero3(), zero3(), 1 * M);
    add_particle(&mut w, Vec3::new(4 * M, 0, 0), zero3(), 1 * M);
    BuildSpatialPartitionSystem::run(&mut w);
    RescalePartitionCellSystem::run(&mut w);
    // One particle per occupied cell against a target of thirty: the
    // width grows by the cube root of thirty (about 3.107).
    assert_eq!(w.partition_params.target_density, 30 * M);
    assert!(w.partition_params.box_width > 2 * M);
    assert!(w.partition_params.box_number >= 1);
}

/// Permuting the magnetic source order leaves the sampled field
/// exactly unchanged.
#[test]
fn test_field_sum_order_independent() {
    let c1 = Vec3::new(1 * M, 0, 0);
    let c2 = Vec3::new(0, 2 * M, 0);
    let q1 = QuadrupoleField3D { gradient: 1 * M, direction: Vec3::new(0, 0, UNIT) };
    let q2 = QuadrupoleField3D { gradient: 3 * M, direction: Vec3::new(0, UNIT, 0) };
    let sample_at = Vec3::new(300_000, -700_000, 900_000);

    let mut build = |first: (Vec3, QuadrupoleField3D), second: (Vec3, QuadrupoleField3D)| {
        let mut w = fresh_world();
        let s1 = w.new_entity();
        w.set_position(s1, Position { pos: first.0 });
        w.set_quadrupole(s1, first.1);
        let s2 = w.new_entity();
        w.set_position(s2, Position { pos: second.0 });
        w.set_quadrupole(s2, second.1);
        let t = w.new_entity();
        w.set_position(t, Position { pos: sample_at });
        w.set_sampler(t, MagneticFieldSampler { field: zero3() });
        Sample3DQuadrupoleFieldSystem::run(&mut w);
        w.samplers[t].unwrap().field
    };
    let forward = build((c1, q1), (c2, q2));
    let backward = build((c2, q2), (c1, q1));
    assert_eq!(forward, backward);
}

/// Velocity-Verlet under a constant force reproduces the closed form
/// `x0 + v0 t + (F/m) t^2 / 2`; with these values every step is exact.
#[test]
fn test_verlet_constant_force() {
    let m: i64 = 1 * M;
    let f: i64 = 2 * M;
    let dt: i64 = 1_000;
    let mut x: i64 = 0;
    let mut v: i64 = 0;
    let n: i64 = 100;
    for _ in 0..n {
        x = VelocityVerletIntegratePositionSystem::position_step(x, v, f, dt, m);
        v = VelocityVerletIntegrateVelocitySystem::velocity_step(v, f, f, dt, m);
    }
    // 0.5 * (2 N / 1 kg) * (0.1 s)^2 is 0.01 m: 10000 at fixed scale.
    assert_eq!(x, 10_000);
    // v is (F/m) t: 0.2 m/s.
    assert_eq!(v, 200_000);
}

/// A detector absorbs the particles it contains and accumulates their
/// count and summed velocity; particles outside are untouched.
#[test]
fn test_detector_absorbs_particles() {
    let mut w = fresh_world();
    let inside = add_particle(&mut w, Vec3::new(100_000, 0, 0), Vec3::new(2 * M, 0, 0), 1 * M);
    let outside = add_particle(&mut w, Vec3::new(10 * M, 0, 0), Vec3::new(0, 1 * M, 0), 1 * M);
    let det = w.new_entity();
    w.set_detector(det, Detector { centre: zero3(), range: Vec3::new(1 * M, 1 * M, 1 * M) });
    DetectingAtomSystem::run(&mut w);
    assert!(w.positions[inside].is_none());
    assert!(w.velocities[inside].is_none());
    assert!(w.positions[outside].is_some());
    assert_eq!(w.atom_output.number_of_atom, 1);
    assert_eq!(w.atom_output.total_velocity, Vec3::new(2 * M, 0, 0));
    // The average velocity of the detected atoms.
    let avg = PrintDetectSystem::run(&w).unwrap();
    assert_eq!(avg, Vec3::new(2 * M, 0, 0));
}

/// With no detected atom the average-velocity computation reports
/// nothing instead of dividing by zero.
#[test]
fn test_detect_average_guards_zero() {
    let w = fresh_world();
    assert!(PrintDetectSystem::run(&w).is_none());
}

/// The steady-state populations computed over the store match the
/// closed-form fraction.
#[test]
fn test_two_level_population_system() {
    let mut w = fresh_world();
    let id = w.new_entity();
    w.set_transition(id, AtomicTransition { linewidth: 1 * M });
    w.set_rates(id, RateCoefficients { contents: vec![RateCoefficient { rate: 1 * M }] });
    w.set_twolevel(id, TwoLevelPopulation::new());
    CalculateTwoLevelPopulationSystem::run(&mut w);
    let pop = w.twolevels[id].unwrap();
    assert_eq!(pop.excited, 120_726);
    assert_eq!(pop.ground, UNIT - 120_726);
    assert!(pop.excited >= 0 && pop.excited < UNIT);
}

/// Snapshot records are assembled every hundredth step and carry the
/// particle state.
#[test]
fn test_snapshot_records() {
    let mut w = fresh_world();
    let id = add_particle(&mut w, Vec3::new(5, 6, 7), Vec3::new(8, 9, 10), 1 * M);
    w.set_kick(id, RandKick { force: zero3() });
    let records = PrintOutputSytem::run(&w);
    assert_eq!(records.len(), 1);
    assert_eq!(records[0].pos, Vec3::new(5, 6, 7));
    assert_eq!(records[0].vel, Vec3::new(8, 9, 10));
    // Off the hundredth step, no records.
    w.step = coldatoms::ecs::Step { n: 7 };
    assert_eq!(PrintOutputSytem::run(&w).len(), 0);
}

/// Setup validation: an unregistered component family is a fatal
/// setup-time error, and the checked constructors reject the
/// configuration errors the run must not start with.
#[test]
fn test_setup_validation() {
    let w = World::new();
    let d = create_dispatcher_running();
    assert_eq!(validate_setup(&w, &d), Err(ConfigError::UnregisteredComponent));
    let w2 = fresh_world();
    assert!(validate_setup(&w2, &d).is_ok());

    assert_eq!(checked_mass(0), Err(ConfigError::NonPositiveMass));
    assert_eq!(checked_mass(-5), Err(ConfigError::NonPositiveMass));
    assert_eq!(checked_mass(1 * M).unwrap().value, 1 * M);
    assert_eq!(checked_partition_parameters(0, 1_000, 30 * M), Err(ConfigError::ZeroBoxNumber));
    assert_eq!(
        checked_partition_parameters(10, 0, 30 * M),
        Err(ConfigError::OutOfRange)
    );
    assert!(checked_partition_parameters(100, 1_000, 30 * M).is_ok());
    assert_eq!(checked_timestep(0), Err(ConfigError::OutOfRange));
    assert_eq!(checked_timestep(1_000).unwrap(), Timestep { delta: 1_000 });
}

/// The externally drawn kicks of a tick reach the force accumulator.
#[test]
fn test_kick_feeds_force_sum() {
    let mut w = fresh_world();
    w.timestep = checked_timestep(1_000).unwrap();
    let id = add_particle(&mut w, zero3(), zero3(), 1 * M);
    w.set_kick(id, RandKick { force: zero3() });
    let d = create_dispatcher_running();
    let kicks = vec![RandKick { force: Vec3::new(3 * M, 0, 0) }];
    let (_records, _trace) = run_tick(&mut w, &d, &kicks);
    // The kick was installed and summed into the net force.
    assert_eq!(w.kicks[id].unwrap().force, Vec3::new(3 * M, 0, 0));
    assert_eq!(w.forces[id].unwrap().force, Vec3::new(3 * M, 0, 0));
    // And the integrator accelerated the particle by F dt / m.
    assert_eq!(w.velocities[id].unwrap().vel, Vec3::new(3_000, 0, 0));
}
