//! A verified per-tick simulation kernel for ensembles of neutral atoms
//! moving under configurable force fields: magnetic gradients, laser
//! radiation pressure, gravity and externally supplied stochastic kicks.
//!
//! All physical quantities are fixed-point scaled integers (see
//! [`fixed::UNIT`]), which makes every kernel an exact, deterministic
//! integer function with a proved contract.

pub mod atom;
pub mod cellmap;
pub mod dispatcher;
pub mod ecs;
pub mod fixed;
pub mod forces;
pub mod gaussian;
pub mod grid;
pub mod integrator;
pub mod magnetic;
pub mod output;
pub mod partition;
pub mod quadrupole;
pub mod sums;
pub mod twolevel;
pub mod vec3;
