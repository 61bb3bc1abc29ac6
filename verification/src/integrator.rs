//! One explicit Euler update of every body, velocity first.

use crate::body::{Body, ForceVector, Vector};
use crate::engine::Engine;
use crate::error::SimError;
use crate::scalar::{is_nonpositive, nonpositive};
use vstd::prelude::*;

verus! {

/// Some body has a mass that is zero or negative.
pub open spec fn invalid_mass(bodies: Seq<Body>) -> bool {
    exists|i: int| 0 <= i < bodies.len() && nonpositive(#[trigger] bodies[i].mass)
}

/// Tells whether some body has a mass that is zero or negative.
pub fn has_invalid_mass(bodies: &Vec<Body>) -> (r: bool)
    ensures
        r == invalid_mass(bodies@),
{
    let mut i: usize = 0;
    while i < bodies.len()
        invariant
            i <= bodies.len(),
            forall|k: int| 0 <= k < i ==> !nonpositive(#[trigger] bodies@[k].mass),
        decreases bodies.len() - i,
    {
        if is_nonpositive(bodies[i].mass) {
            return true;
        }
        i += 1;
    }
    false
}

impl<A, S, M, D, R> Engine<A, S, M, D, R> where
    A: Fn(u64, u64) -> u64,
    S: Fn(u64, u64) -> u64,
    M: Fn(u64, u64) -> u64,
    D: Fn(u64, u64) -> u64,
    R: Fn(u64) -> u64,
 {
    /// `after` is `before` moved by one step under `force`: the acceleration
    /// is `force / mass`, the new velocity is the old one plus the
    /// acceleration, and the new position is the old one plus the new
    /// velocity. The mass stays.
    pub open spec fn advances(&self, before: Body, force: ForceVector, after: Body) -> bool {
        exists|ax: u64, ay: u64|
            {
                &&& self.quotient(force.x, before.mass, ax)
                &&& self.quotient(force.y, before.mass, ay)
                &&& self.sum(before.velocity.x, ax, after.velocity.x)
                &&& self.sum(before.velocity.y, ay, after.velocity.y)
                &&& self.sum(before.position.x, after.velocity.x, after.position.x)
                &&& self.sum(before.position.y, after.velocity.y, after.position.y)
                &&& after.mass == before.mass
            }
    }

    /// Every body of `after` is the body of `before` at its index, moved by
    /// one step under the force at that index.
    pub open spec fn integrates(
        &self,
        before: Seq<Body>,
        forces: Seq<ForceVector>,
        after: Seq<Body>,
    ) -> bool {
        &&& after.len() == before.len()
        &&& forall|i: int|
            0 <= i < before.len() ==> self.advances(before[i], forces[i], #[trigger] after[i])
    }

    /// Moves one body by one step under `force`.
    pub fn advance(&self, body: &Body, force: &ForceVector) -> (moved: Body)
        requires
            self.total(),
        ensures
            self.advances(*body, *force, moved),
    {
        let acceleration_x = (self.div)(force.x, body.mass);
        let acceleration_y = (self.div)(force.y, body.mass);
        let velocity_x = (self.add)(body.velocity.x, acceleration_x);
        let velocity_y = (self.add)(body.velocity.y, acceleration_y);
        let position_x = (self.add)(body.position.x, velocity_x);
        let position_y = (self.add)(body.position.y, velocity_y);
        Body {
            mass: body.mass,
            position: Vector { x: position_x, y: position_y },
            velocity: Vector { x: velocity_x, y: velocity_y },
        }
    }

    /// Moves every body by one step under the force at its index. Nothing is
    /// moved unless everything can be: a force array of another length than
    /// the body set, or a body whose mass is zero or negative, fails the
    /// call before the first update.
    pub fn integrate(&self, bodies: &mut Vec<Body>, forces: &Vec<ForceVector>) -> (r: Result<
        (),
        SimError,
    >)
        requires
            self.total(),
        ensures
            match r {
                Ok(_) => self.integrates(old(bodies)@, forces@, final(bodies)@),
                Err(e) => final(bodies)@ == old(bodies)@ && e == (if forces@.len() != old(
                    bodies,
                )@.len() {
                    SimError::ProtocolMismatch
                } else {
                    SimError::InvalidMass
                }),
            },
            r is Err <==> forces@.len() != old(bodies)@.len() || invalid_mass(old(bodies)@),
    {
        if forces.len() != bodies.len() {
            return Err(SimError::ProtocolMismatch);
        }
        if has_invalid_mass(bodies) {
            return Err(SimError::InvalidMass);
        }
        let mut i: usize = 0;
        while i < bodies.len()
            invariant
                self.total(),
                i <= bodies.len(),
                bodies@.len() == old(bodies)@.len(),
                forces@.len() == bodies@.len(),
                forall|k: int|
                    0 <= k < i ==> self.advances(old(bodies)@[k], forces@[k], #[trigger] bodies@[k]),
                forall|k: int| i <= k < bodies@.len() ==> bodies@[k] == old(bodies)@[k],
            decreases bodies.len() - i,
        {
            let moved = self.advance(&bodies[i], &forces[i]);
            bodies.set(i, moved);
            i += 1;
        }
        Ok(())
    }
}

} // verus!
