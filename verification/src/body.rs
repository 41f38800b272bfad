//! The gravitating body: its exec representation, its mathematical model,
//! its well-formedness invariant, and checked construction.

use std::collections::VecDeque;
use vstd::prelude::*;

use crate::geom::{in_range, Rgba, Vec2, COORD_LIMIT, MASS_LIMIT, TRAIL_CAP};

verus! {

/// One gravitating point mass.
///
/// `pos`, `vel` and `mass` are fixed-point numbers (see `SCALE`); `radius`
/// is in whole world units and doubles as the collision threshold against
/// the primary body; `old_positions` is the bounded trail of past
/// positions, oldest first; a body with `is_dynamic == false` is never
/// moved by the integrator but still attracts the others; `id` is a
/// process-unique opaque identifier drawn at construction.
pub struct GravityObject {
    pub pos: Vec2,
    pub vel: Vec2,
    pub radius: u8,
    pub mass: i64,
    pub color: Rgba,
    pub old_positions: VecDeque<Vec2>,
    pub is_dynamic: bool,
    pub id: u128,
}

/// The mathematical model of a `GravityObject`: the same fields, with the
/// trail as a sequence.
#[verifier::ext_equal]
pub ghost struct BodyModel {
    pub pos: Vec2,
    pub vel: Vec2,
    pub radius: u8,
    pub mass: i64,
    pub color: Rgba,
    pub trail: Seq<Vec2>,
    pub is_dynamic: bool,
    pub id: u128,
}

impl View for GravityObject {
    type V = BodyModel;

    open spec fn view(&self) -> BodyModel {
        BodyModel {
            pos: self.pos,
            vel: self.vel,
            radius: self.radius,
            mass: self.mass,
            color: self.color,
            trail: self.old_positions@,
            is_dynamic: self.is_dynamic,
            id: self.id,
        }
    }
}

/// The invariant every live body keeps: positive radius, positive bounded
/// mass, position and velocity within the coordinate range, trail within
/// its capacity.
pub open spec fn body_wf(b: BodyModel) -> bool {
    &&& b.radius >= 1
    &&& 0 < b.mass <= MASS_LIMIT
    &&& in_range(b.pos)
    &&& in_range(b.vel)
    &&& b.trail.len() <= TRAIL_CAP
}

impl GravityObject {
    /// The invariant, on the exec representation.
    pub open spec fn wf(&self) -> bool {
        body_wf(self@)
    }
}

/// Why a body could not be constructed.
#[derive(Clone, Copy, Debug, PartialEq, Eq, Structural)]
pub enum BodyError {
    /// The radius was zero.
    ZeroRadius,
    /// The mass was zero or negative.
    NonPositiveMass,
    /// The mass was above `MASS_LIMIT`.
    MassTooLarge,
    /// A position or velocity component was outside `COORD_LIMIT`.
    OutOfRange,
}

/// Relies on `rand::random`: a value drawn from the thread-local generator.
/// Nothing is promised of it.
#[verifier::external_body]
fn random_id() -> u128 {
    rand::random::<u128>()
}

impl GravityObject {
    /// Construct a body, rejecting a zero radius, a non-positive or
    /// oversized mass, and out-of-range coordinates; a fresh opaque `id`
    /// is drawn at random and the trail starts empty.
    pub fn new(
        pos: Vec2,
        vel: Vec2,
        radius: u8,
        mass: i64,
        color: Rgba,
        is_dynamic: bool,
    ) -> (r: Result<GravityObject, BodyError>)
        ensures
            r is Ok <==> radius >= 1 && 0 < mass <= MASS_LIMIT && in_range(pos) && in_range(vel),
            r matches Ok(b) ==> {
                &&& b.pos == pos
                &&& b.vel == vel
                &&& b.radius == radius
                &&& b.mass == mass
                &&& b.color == color
                &&& b.is_dynamic == is_dynamic
                &&& b.old_positions@ == Seq::<Vec2>::empty()
                &&& b.wf()
            },
            r matches Err(e) ==> e == (if radius == 0 {
                BodyError::ZeroRadius
            } else if mass <= 0 {
                BodyError::NonPositiveMass
            } else if mass > MASS_LIMIT {
                BodyError::MassTooLarge
            } else {
                BodyError::OutOfRange
            }),
    {
        if radius == 0 {
            return Err(BodyError::ZeroRadius);
        }
        if mass <= 0 {
            return Err(BodyError::NonPositiveMass);
        }
        if mass > MASS_LIMIT {
            return Err(BodyError::MassTooLarge);
        }
        if pos.x > COORD_LIMIT || pos.x < -COORD_LIMIT || pos.y > COORD_LIMIT || pos.y
            < -COORD_LIMIT {
            return Err(BodyError::OutOfRange);
        }
        if vel.x > COORD_LIMIT || vel.x < -COORD_LIMIT || vel.y > COORD_LIMIT || vel.y
            < -COORD_LIMIT {
            return Err(BodyError::OutOfRange);
        }
        Ok(GravityObject {
            pos,
            vel,
            radius,
            mass,
            color,
            old_positions: VecDeque::new(),
            is_dynamic,
            id: random_id(),
        })
    }
}

} // verus!
