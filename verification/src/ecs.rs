//! The entity/component store and its setup.
//!
//! Entities are opaque indices; components are optional typed slots in
//! dense parallel arenas, one arena per component type, all of the same
//! length. Attaching any subset of components to an entity is spelling
//! out which slots are `Some`. Global resources (timestep, step counter,
//! detector statistics, partition state) live beside the arenas and are
//! mutated only by the owning systems.

use vstd::prelude::*;
use crate::atom::Atom;
use crate::atom::AtomInfo;
use crate::atom::AtomicTransition;
use crate::atom::Force;
use crate::atom::Gravity;
use crate::atom::Mass;
use crate::atom::NewlyCreated;
use crate::atom::Oven;
use crate::atom::Position;
use crate::atom::RandKick;
use crate::atom::Velocity;
use crate::fixed::UNIT;
use crate::grid::PrecalculatedMagneticFieldGrid;
use crate::magnetic::MagneticFieldSampler;
use crate::output::AtomOuput;
use crate::output::Detector;
use crate::output::RingDetector;
use crate::partition::BoxID;
use crate::partition::PartitionParameters;
use crate::partition::VelocityHashmap;
use crate::quadrupole::QuadrupoleField3D;
use crate::twolevel::RateCoefficients;
use crate::twolevel::TwoLevelPopulation;
use crate::vec3::Vec3;

verus! {

/// The fixed timestep, fixed-point seconds; injected read-only into
/// every system.
#[derive(Debug, Clone, Copy, PartialEq, Eq, Structural)]
pub struct Timestep {
    pub delta: i64,
}

impl Timestep {
    /// A usable timestep: positive and at most one second.
    pub open spec fn valid(self) -> bool {
        1 <= self.delta <= UNIT
    }
}

/// The step counter; injected read-only into every system and advanced
/// once per tick by the scheduler.
#[derive(Debug, Clone, Copy, PartialEq, Eq, Structural)]
pub struct Step {
    pub n: i64,
}

/// Which component families have been registered with the store. A
/// system whose components are not registered is a fatal setup-time
/// error, caught by `validate_setup`, never a mid-tick fault.
#[derive(Debug, Clone, Copy, PartialEq, Eq, Structural)]
pub struct Registered {
    pub general: bool,
    pub atomcreation: bool,
    pub otherforce: bool,
    pub output: bool,
    pub magnetic: bool,
    pub laser: bool,
}

/// The entity/component store together with the global resources.
pub struct World {
    pub n_entities: usize,
    pub positions: Vec<Option<Position>>,
    pub velocities: Vec<Option<Velocity>>,
    pub masses: Vec<Option<Mass>>,
    pub forces: Vec<Option<Force>>,
    pub kicks: Vec<Option<RandKick>>,
    pub gravities: Vec<Option<Gravity>>,
    pub atoms: Vec<Option<Atom>>,
    pub newly_created: Vec<Option<NewlyCreated>>,
    pub ovens: Vec<Option<Oven>>,
    pub atom_infos: Vec<Option<AtomInfo>>,
    pub samplers: Vec<Option<MagneticFieldSampler>>,
    pub quadrupoles: Vec<Option<QuadrupoleField3D>>,
    pub grids: Vec<Option<PrecalculatedMagneticFieldGrid>>,
    pub transitions: Vec<Option<AtomicTransition>>,
    pub rates: Vec<Option<RateCoefficients>>,
    pub twolevels: Vec<Option<TwoLevelPopulation>>,
    pub boxids: Vec<Option<BoxID>>,
    pub detectors: Vec<Option<Detector>>,
    pub ring_detectors: Vec<Option<RingDetector>>,
    pub timestep: Timestep,
    pub step: Step,
    pub atom_output: AtomOuput,
    pub partition_params: PartitionParameters,
    pub hashmap: VelocityHashmap,
    pub registered: Registered,
}

impl World {
    /// Every arena has one slot per entity.
    pub open spec fn arenas_sized(self) -> bool {
        &&& self.positions@.len() == self.n_entities
        &&& self.velocities@.len() == self.n_entities
        &&& self.masses@.len() == self.n_entities
        &&& self.forces@.len() == self.n_entities
        &&& self.kicks@.len() == self.n_entities
        &&& self.gravities@.len() == self.n_entities
        &&& self.atoms@.len() == self.n_entities
        &&& self.newly_created@.len() == self.n_entities
        &&& self.ovens@.len() == self.n_entities
        &&& self.atom_infos@.len() == self.n_entities
        &&& self.samplers@.len() == self.n_entities
        &&& self.quadrupoles@.len() == self.n_entities
        &&& self.grids@.len() == self.n_entities
        &&& self.transitions@.len() == self.n_entities
        &&& self.rates@.len() == self.n_entities
        &&& self.twolevels@.len() == self.n_entities
        &&& self.boxids@.len() == self.n_entities
        &&& self.detectors@.len() == self.n_entities
        &&& self.ring_detectors@.len() == self.n_entities
    }

    /// The stored values every kernel accepts: bounded coordinates,
    /// positive masses, valid descriptors and resources.
    pub open spec fn values_valid(self) -> bool {
        &&& self.n_entities < 0x4000_0000
        &&& forall|i: int|
            0 <= i < self.n_entities && self.positions@[i] is Some ==> (
            #[trigger] self.positions@[i])->0.pos.in_range()
        &&& forall|i: int|
            0 <= i < self.n_entities && self.velocities@[i] is Some ==> (
            #[trigger] self.velocities@[i])->0.vel.in_range()
        &&& forall|i: int|
            0 <= i < self.n_entities && self.masses@[i] is Some ==> (
            #[trigger] self.masses@[i])->0.valid()
        &&& forall|i: int|
            0 <= i < self.n_entities && self.forces@[i] is Some ==> (
            #[trigger] self.forces@[i])->0.force.in_range()
        &&& forall|i: int|
            0 <= i < self.n_entities && self.kicks@[i] is Some ==> (
            #[trigger] self.kicks@[i])->0.force.in_range()
        &&& forall|i: int|
            0 <= i < self.n_entities && self.quadrupoles@[i] is Some ==> (
            #[trigger] self.quadrupoles@[i])->0.valid()
        &&& forall|i: int|
            0 <= i < self.n_entities && self.grids@[i] is Some ==> (
            #[trigger] self.grids@[i])->0.valid()
        &&& forall|i: int|
            0 <= i < self.n_entities && self.transitions@[i] is Some ==> 1 <= (
            #[trigger] self.transitions@[i])->0.linewidth <= crate::fixed::MAXQ
        &&& forall|i: int|
            0 <= i < self.n_entities && self.rates@[i] is Some ==> (
            #[trigger] self.rates@[i])->0.valid()
        &&& forall|i: int|
            0 <= i < self.n_entities && self.detectors@[i] is Some ==> (
            #[trigger] self.detectors@[i])->0.valid()
        &&& forall|i: int|
            0 <= i < self.n_entities && self.ring_detectors@[i] is Some ==> (
            #[trigger] self.ring_detectors@[i])->0.valid()
        &&& self.timestep.valid()
        &&& self.partition_params.valid()
        &&& 0 <= self.step.n < 0x4000_0000_0000_0000
    }

    /// Well-formedness of the whole store.
    pub open spec fn wf(self) -> bool {
        self.arenas_sized() && self.values_valid()
    }

    /// A fresh world: no entities, default resources, nothing
    /// registered.
    pub fn new() -> (r: World)
        ensures
            r.wf(),
            r.n_entities == 0,
            r.step.n == 0,
            r.timestep.delta == 1,
            r.registered == (Registered {
                general: false,
                atomcreation: false,
                otherforce: false,
                output: false,
                magnetic: false,
                laser: false,
            }),
    {
        World {
            n_entities: 0,
            positions: Vec::new(),
            velocities: Vec::new(),
            masses: Vec::new(),
            forces: Vec::new(),
            kicks: Vec::new(),
            gravities: Vec::new(),
            atoms: Vec::new(),
            newly_created: Vec::new(),
            ovens: Vec::new(),
            atom_infos: Vec::new(),
            samplers: Vec::new(),
            quadrupoles: Vec::new(),
            grids: Vec::new(),
            transitions: Vec::new(),
            rates: Vec::new(),
            twolevels: Vec::new(),
            boxids: Vec::new(),
            detectors: Vec::new(),
            ring_detectors: Vec::new(),
            timestep: Timestep { delta: 1 },
            step: Step { n: 0 },
            atom_output: AtomOuput {
                number_of_atom: 0,
                total_velocity: Vec3 { x: 0, y: 0, z: 0 },
            },
            partition_params: PartitionParameters::default(),
            hashmap: VelocityHashmap::default(),
            registered: Registered {
                general: false,
                atomcreation: false,
                otherforce: false,
                output: false,
                magnetic: false,
                laser: false,
            },
        }
    }


    /// Attaches (or replaces) this component on entity `id`.
    pub fn set_position(&mut self, id: usize, c: Position)
        requires
            old(self).wf(),
            id < old(self).n_entities,
            c.pos.in_range(),
        ensures
            final(self).wf(),
            final(self).n_entities == old(self).n_entities,
            final(self).positions@ == old(self).positions@.update(id as int, Some(c)),
            *final(self) == (World { positions: final(self).positions, ..*old(self) }),
    {
        self.positions[id] = Some(c);
    }

    /// Attaches (or replaces) this component on entity `id`.
    pub fn set_velocity(&mut self, id: usize, c: Velocity)
        requires
            old(self).wf(),
            id < old(self).n_entities,
            c.vel.in_range(),
        ensures
            final(self).wf(),
            final(self).n_entities == old(self).n_entities,
            final(self).velocities@ == old(self).velocities@.update(id as int, Some(c)),
            *final(self) == (World { velocities: final(self).velocities, ..*old(self) }),
    {
        self.velocities[id] = Some(c);
    }

    /// Attaches (or replaces) this component on entity `id`.
    pub fn set_mass(&mut self, id: usize, c: Mass)
        requires
            old(self).wf(),
            id < old(self).n_entities,
            c.valid(),
        ensures
            final(self).wf(),
            final(self).n_entities == old(self).n_entities,
            final(self).masses@ == old(self).masses@.update(id as int, Some(c)),
            *final(self) == (World { masses: final(self).masses, ..*old(self) }),
    {
        self.masses[id] = Some(c);
    }

    /// Attaches (or replaces) this component on entity `id`.
    pub fn set_force(&mut self, id: usize, c: Force)
        requires
            old(self).wf(),
            id < old(self).n_entities,
            c.force.in_range(),
        ensures
            final(self).wf(),
            final(self).n_entities == old(self).n_entities,
            final(self).forces@ == old(self).forces@.update(id as int, Some(c)),
            *final(self) == (World { forces: final(self).forces, ..*old(self) }),
    {
        self.forces[id] = Some(c);
    }

    /// Attaches (or replaces) this component on entity `id`.
    pub fn set_kick(&mut self, id: usize, c: RandKick)
        requires
            old(self).wf(),
            id < old(self).n_entities,
            c.force.in_range(),
        ensures
            final(self).wf(),
            final(self).n_entities == old(self).n_entities,
            final(self).kicks@ == old(self).kicks@.update(id as int, Some(c)),
            *final(self) == (World { kicks: final(self).kicks, ..*old(self) }),
    {
        self.kicks[id] = Some(c);
    }

    /// Attaches (or replaces) this component on entity `id`.
    pub fn set_gravity(&mut self, id: usize, c: Gravity)
        requires
            old(self).wf(),
            id < old(self).n_entities,
        ensures
            final(self).wf(),
            final(self).n_entities == old(self).n_entities,
            final(self).gravities@ == old(self).gravities@.update(id as int, Some(c)),
            *final(self) == (World { gravities: final(self).gravities, ..*old(self) }),
    {
        self.gravities[id] = Some(c);
    }

    /// Attaches (or replaces) this component on entity `id`.
    pub fn set_atom(&mut self, id: usize, c: Atom)
        requires
            old(self).wf(),
            id < old(self).n_entities,
        ensures
            final(self).wf(),
            final(self).n_entities == old(self).n_entities,
            final(self).atoms@ == old(self).atoms@.update(id as int, Some(c)),
            *final(self) == (World { atoms: final(self).atoms, ..*old(self) }),
    {
        self.atoms[id] = Some(c);
    }

    /// Attaches (or replaces) this component on entity `id`.
    pub fn set_newly_created(&mut self, id: usize, c: NewlyCreated)
        requires
            old(self).wf(),
            id < old(self).n_entities,
        ensures
            final(self).wf(),
            final(self).n_entities == old(self).n_entities,
            final(self).newly_created@ == old(self).newly_created@.update(id as int, Some(c)),
            *final(self) == (World { newly_created: final(self).newly_created, ..*old(self) }),
    {
        self.newly_created[id] = Some(c);
    }

    /// Attaches (or replaces) this component on entity `id`.
    pub fn set_oven(&mut self, id: usize, c: Oven)
        requires
            old(self).wf(),
            id < old(self).n_entities,
        ensures
            final(self).wf(),
            final(self).n_entities == old(self).n_entities,
            final(self).ovens@ == old(self).ovens@.update(id as int, Some(c)),
            *final(self) == (World { ovens: final(self).ovens, ..*old(self) }),
    {
        self.ovens[id] = Some(c);
    }

    /// Attaches (or replaces) this component on entity `id`.
    pub fn set_atom_info(&mut self, id: usize, c: AtomInfo)
        requires
            old(self).wf(),
            id < old(self).n_entities,
        ensures
            final(self).wf(),
            final(self).n_entities == old(self).n_entities,
            final(self).atom_infos@ == old(self).atom_infos@.update(id as int, Some(c)),
            *final(self) == (World { atom_infos: final(self).atom_infos, ..*old(self) }),
    {
        self.atom_infos[id] = Some(c);
    }

    /// Attaches (or replaces) this component on entity `id`.
    pub fn set_sampler(&mut self, id: usize, c: MagneticFieldSampler)
        requires
            old(self).wf(),
            id < old(self).n_entities,
        ensures
            final(self).wf(),
            final(self).n_entities == old(self).n_entities,
            final(self).samplers@ == old(self).samplers@.update(id as int, Some(c)),
            *final(self) == (World { samplers: final(self).samplers, ..*old(self) }),
    {
        self.samplers[id] = Some(c);
    }

    /// Attaches (or replaces) this component on entity `id`.
    pub fn set_quadrupole(&mut self, id: usize, c: QuadrupoleField3D)
        requires
            old(self).wf(),
            id < old(self).n_entities,
            c.valid(),
        ensures
            final(self).wf(),
            final(self).n_entities == old(self).n_entities,
            final(self).quadrupoles@ == old(self).quadrupoles@.update(id as int, Some(c)),
            *final(self) == (World { quadrupoles: final(self).quadrupoles, ..*old(self) }),
    {
        self.quadrupoles[id] = Some(c);
    }

    /// Attaches (or replaces) this component on entity `id`.
    pub fn set_grid(&mut self, id: usize, c: PrecalculatedMagneticFieldGrid)
        requires
            old(self).wf(),
            id < old(self).n_entities,
            c.valid(),
        ensures
            final(self).wf(),
            final(self).n_entities == old(self).n_entities,
            final(self).grids@ == old(self).grids@.update(id as int, Some(c)),
            *final(self) == (World { grids: final(self).grids, ..*old(self) }),
    {
        self.grids[id] = Some(c);
    }

    /// Attaches (or replaces) this component on entity `id`.
    pub fn set_transition(&mut self, id: usize, c: AtomicTransition)
        requires
            old(self).wf(),
            id < old(self).n_entities,
            1 <= c.linewidth <= crate::fixed::MAXQ,
        ensures
            final(self).wf(),
            final(self).n_entities == old(self).n_entities,
            final(self).transitions@ == old(self).transitions@.update(id as int, Some(c)),
            *final(self) == (World { transitions: final(self).transitions, ..*old(self) }),
    {
        self.transitions[id] = Some(c);
    }

    /// Attaches (or replaces) this component on entity `id`.
    pub fn set_rates(&mut self, id: usize, c: RateCoefficients)
        requires
            old(self).wf(),
            id < old(self).n_entities,
            c.valid(),
        ensures
            final(self).wf(),
            final(self).n_entities == old(self).n_entities,
            final(self).rates@ == old(self).rates@.update(id as int, Some(c)),
            *final(self) == (World { rates: final(self).rates, ..*old(self) }),
    {
        self.rates[id] = Some(c);
    }

    /// Attaches (or replaces) this component on entity `id`.
    pub fn set_twolevel(&mut self, id: usize, c: TwoLevelPopulation)
        requires
            old(self).wf(),
            id < old(self).n_entities,
        ensures
            final(self).wf(),
            final(self).n_entities == old(self).n_entities,
            final(self).twolevels@ == old(self).twolevels@.update(id as int, Some(c)),
            *final(self) == (World { twolevels: final(self).twolevels, ..*old(self) }),
    {
        self.twolevels[id] = Some(c);
    }

    /// Attaches (or replaces) this component on entity `id`.
    pub fn set_detector(&mut self, id: usize, c: Detector)
        requires
            old(self).wf(),
            id < old(self).n_entities,
            c.valid(),
        ensures
            final(self).wf(),
            final(self).n_entities == old(self).n_entities,
            final(self).detectors@ == old(self).detectors@.update(id as int, Some(c)),
            *final(self) == (World { detectors: final(self).detectors, ..*old(self) }),
    {
        self.detectors[id] = Some(c);
    }

    /// Attaches (or replaces) this component on entity `id`.
    pub fn set_ring_detector(&mut self, id: usize, c: RingDetector)
        requires
            old(self).wf(),
            id < old(self).n_entities,
            c.valid(),
        ensures
            final(self).wf(),
            final(self).n_entities == old(self).n_entities,
            final(self).ring_detectors@ == old(self).ring_detectors@.update(id as int, Some(c)),
            *final(self) == (World { ring_detectors: final(self).ring_detectors, ..*old(self) }),
    {
        self.ring_detectors[id] = Some(c);
    }

    /// Creates a fresh entity with no components and returns its index.
    pub fn new_entity(&mut self) -> (id: usize)
        requires
            old(self).wf(),
            old(self).n_entities < 0x3fff_ffff,
        ensures
            final(self).wf(),
            id == old(self).n_entities,
            final(self).n_entities == old(self).n_entities + 1,
            final(self).positions@ == old(self).positions@.push(None),
            final(self).velocities@ == old(self).velocities@.push(None),
            final(self).masses@ == old(self).masses@.push(None),
            final(self).forces@ == old(self).forces@.push(None),
            final(self).kicks@ == old(self).kicks@.push(None),
            final(self).gravities@ == old(self).gravities@.push(None),
            final(self).atoms@ == old(self).atoms@.push(None),
            final(self).quadrupoles@ == old(self).quadrupoles@.push(None),
            final(self).grids@ == old(self).grids@.push(None),
            final(self).transitions@ == old(self).transitions@.push(None),
            final(self).rates@ == old(self).rates@.push(None),
            final(self).twolevels@ == old(self).twolevels@.push(None),
            final(self).detectors@ == old(self).detectors@.push(None),
            final(self).ring_detectors@ == old(self).ring_detectors@.push(None),
            final(self).samplers@ == old(self).samplers@.push(None),
            final(self).boxids@ == old(self).boxids@.push(None),
            final(self).timestep == old(self).timestep,
            final(self).step == old(self).step,
            final(self).atom_output == old(self).atom_output,
            final(self).partition_params == old(self).partition_params,
            final(self).hashmap == old(self).hashmap,
            final(self).registered == old(self).registered,
    {
        let id = self.n_entities;
        self.positions.push(None);
        self.velocities.push(None);
        self.masses.push(None);
        self.forces.push(None);
        self.kicks.push(None);
        self.gravities.push(None);
        self.atoms.push(None);
        self.newly_created.push(None);
        self.ovens.push(None);
        self.atom_infos.push(None);
        self.samplers.push(None);
        self.quadrupoles.push(None);
        self.grids.push(None);
        self.transitions.push(None);
        self.rates.push(None);
        self.twolevels.push(None);
        self.boxids.push(None);
        self.detectors.push(None);
        self.ring_detectors.push(None);
        self.n_entities = self.n_entities + 1;
        id
    }
}

/// Registers the core motion components: `Position`, `Velocity`,
/// `Force`, `Mass`.
pub fn register_component_general(world: &mut World)
    ensures
        *final(world) == (Registered {
            general: true,
            ..old(world).registered
        }).apply_to(*old(world)),
{
    world.registered.general = true;
}

/// Registers the atom-creation components: `Oven`, `AtomInfo`, `Atom`,
/// `NewlyCreated`.
pub fn register_component_atomcreation(world: &mut World)
    ensures
        *final(world) == (Registered {
            atomcreation: true,
            ..old(world).registered
        }).apply_to(*old(world)),
{
    world.registered.atomcreation = true;
}

/// Registers the additional force components: `Gravity`, `RandKick`.
pub fn register_component_otherforce(world: &mut World)
    ensures
        *final(world) == (Registered {
            otherforce: true,
            ..old(world).registered
        }).apply_to(*old(world)),
{
    world.registered.otherforce = true;
}

/// Registers the detector components: `Detector`, `RingDetector`.
pub fn register_component_output(world: &mut World)
    ensures
        *final(world) == (Registered {
            output: true,
            ..old(world).registered
        }).apply_to(*old(world)),
{
    world.registered.output = true;
}

impl Registered {
    /// The world with these registration flags in place of its own.
    pub open spec fn apply_to(self, w: World) -> World {
        World { registered: self, ..w }
    }
}

/// Registers every component family the dispatcher's systems read or
/// write.
pub fn register_lazy(world: &mut World)
    ensures
        *final(world) == (Registered {
            general: true,
            atomcreation: true,
            otherforce: true,
            output: true,
            magnetic: true,
            laser: true,
        }).apply_to(*old(world)),
{
    register_component_output(world);
    register_component_otherforce(world);
    register_component_atomcreation(world);
    register_component_general(world);
    world.registered.magnetic = true;
    world.registered.laser = true;
}

/// Installs the global resources read by the systems: the timestep, the
/// step counter and the detector statistics accumulator.
pub fn register_resources_lazy(world: &mut World)
    ensures
        *final(world) == (World {
            timestep: Timestep { delta: 1 },
            step: Step { n: 0 },
            atom_output: AtomOuput {
                number_of_atom: 0,
                total_velocity: Vec3 { x: 0, y: 0, z: 0 },
            },
            ..*old(world)
        }),
{
    world.timestep = Timestep { delta: 1 };
    world.step = Step { n: 0 };
    world.atom_output = AtomOuput {
        number_of_atom: 0,
        total_velocity: Vec3 { x: 0, y: 0, z: 0 },
    };
}

} // verus!
