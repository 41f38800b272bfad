//! A discrete-time N-body gravitational integrator on fixed-point coordinates.
//!
//! Positions, velocities and masses are carried as signed 64-bit fixed-point
//! numbers with `SCALE` sub-units per world unit, so every tick of the
//! simulation is exact integer arithmetic with a full functional
//! specification.  Each tick prunes the bodies that have fallen into the
//! primary body, then accumulates pairwise gravitational acceleration and
//! advances the movable bodies, keeping a bounded trail of past positions.

pub mod body;
pub mod geom;
pub mod laws;
pub mod math;
pub mod sim;

pub use body::{BodyError, GravityObject};
pub use geom::{Rgba, Vec2, COORD_LIMIT, MASS_LIMIT, SCALE, TRAIL_CAP};
pub use sim::{find_body_at, find_by_id, update};
