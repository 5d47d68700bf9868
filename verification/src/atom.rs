//! Components carried by particle entities.

use vstd::prelude::*;
use crate::vec3::Vec3;
use crate::fixed::MAXQ;

verus! {

/// Marker component: the entity is a simulated atom.
#[derive(Debug, Clone, Copy)]
pub struct Atom;

/// Marker component: the entity was created by an atom source during the
/// current tick and has not yet been integrated.
#[derive(Debug, Clone, Copy)]
pub struct NewlyCreated;

/// Marker component: the entity feels the uniform gravitational field.
#[derive(Debug, Clone, Copy)]
pub struct Gravity;

/// Position of an entity, fixed-point metres.
#[derive(Debug, Clone, Copy, PartialEq, Eq, Structural)]
pub struct Position {
    pub pos: Vec3,
}

/// Velocity of an entity, fixed-point metres per second.
#[derive(Debug, Clone, Copy, PartialEq, Eq, Structural)]
pub struct Velocity {
    pub vel: Vec3,
}

/// Accumulated force on an entity for the current tick, fixed-point
/// Newtons.
#[derive(Debug, Clone, Copy, PartialEq, Eq, Structural)]
pub struct Force {
    pub force: Vec3,
}

/// Externally supplied stochastic kick, accumulated into the net force
/// once per tick, fixed-point Newtons.
#[derive(Debug, Clone, Copy, PartialEq, Eq, Structural)]
pub struct RandKick {
    pub force: Vec3,
}

/// Mass of an entity, fixed-point kilograms. Zero or negative mass is a
/// fatal configuration error caught at setup time.
#[derive(Debug, Clone, Copy, PartialEq, Eq, Structural)]
pub struct Mass {
    pub value: i64,
}

impl Mass {
    /// A mass an integrated particle may carry: positive and in range.
    pub open spec fn valid(self) -> bool {
        0 < self.value <= MAXQ
    }
}

/// Data of the optical transition driven by the cooling light: the
/// natural linewidth, fixed-point Hz.
#[derive(Debug, Clone, Copy, PartialEq, Eq, Structural)]
pub struct AtomicTransition {
    pub linewidth: i64,
}

/// Scenario-construction data of an atom oven source; consumed by the
/// external setup logic, never read by the kernel itself.
#[derive(Debug, Clone, Copy, PartialEq, Eq, Structural)]
pub struct Oven {
    pub temperature: i64,
}

/// Per-species data attached at creation time by the external setup
/// logic.
#[derive(Debug, Clone, Copy, PartialEq, Eq, Structural)]
pub struct AtomInfo {
    pub mass_number: i64,
}

} // verus!
