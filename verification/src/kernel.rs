//! The gravitational force that one body exerts on another.

use crate::body::{Body, ForceVector, Vector};
use crate::engine::Engine;
use crate::error::SimError;
use crate::scalar::{is_zero, zero, GRAVITATIONAL_CONSTANT};
use vstd::prelude::*;

verus! {

impl<A, S, M, D, R> Engine<A, S, M, D, R> where
    A: Fn(u64, u64) -> u64,
    S: Fn(u64, u64) -> u64,
    M: Fn(u64, u64) -> u64,
    D: Fn(u64, u64) -> u64,
    R: Fn(u64) -> u64,
 {
    /// `dx` and `dy` are the steps from `a` to `b` along the two axes, and
    /// `d2` is `dx * dx + dy * dy`.
    pub open spec fn separation(&self, a: Body, b: Body, dx: u64, dy: u64, d2: u64) -> bool {
        exists|xx: u64, yy: u64|
            {
                &&& self.difference(b.position.x, a.position.x, dx)
                &&& self.difference(b.position.y, a.position.y, dy)
                &&& self.product(dx, dx, xx)
                &&& self.product(dy, dy, yy)
                &&& self.sum(xx, yy, d2)
            }
    }

    /// `magnitude` is `((G * a.mass) * b.mass) / d2`.
    pub open spec fn attraction(&self, a: Body, b: Body, d2: u64, magnitude: u64) -> bool {
        exists|gm: u64, gmm: u64|
            {
                &&& self.product(GRAVITATIONAL_CONSTANT, a.mass, gm)
                &&& self.product(gm, b.mass, gmm)
                &&& self.quotient(gmm, d2, magnitude)
            }
    }

    /// `part` is `(magnitude * delta) / sqrt(d2)`.
    pub open spec fn component(&self, magnitude: u64, delta: u64, d2: u64, part: u64) -> bool {
        exists|scaled: u64, distance: u64|
            {
                &&& self.product(magnitude, delta, scaled)
                &&& self.root(d2, distance)
                &&& self.quotient(scaled, distance, part)
            }
    }

    /// `force` is the pull of `b` on `a`: the squared distance between the
    /// two is no zero, and each component of `force` is the magnitude of the
    /// attraction, times the step along that axis, over the distance.
    pub open spec fn exerts(&self, a: Body, b: Body, force: ForceVector) -> bool {
        exists|dx: u64, dy: u64, d2: u64, magnitude: u64|
            {
                &&& self.separation(a, b, dx, dy, d2)
                &&& !zero(d2)
                &&& self.attraction(a, b, d2, magnitude)
                &&& self.component(magnitude, dx, d2, force.x)
                &&& self.component(magnitude, dy, d2, force.y)
            }
    }

    /// The squared distance between `a` and `b` comes out as a zero.
    pub open spec fn coincide(&self, a: Body, b: Body) -> bool {
        exists|dx: u64, dy: u64, d2: u64| self.separation(a, b, dx, dy, d2) && zero(d2)
    }

    /// The force that `body2` exerts on `body1` by Newton's law of
    /// gravitation: `G * m1 * m2 / r^2` in magnitude, along the line from
    /// `body1` to `body2`. Bodies whose squared distance comes out as zero
    /// are rejected, so that no division by zero is ever made.
    pub fn calculate_force(&self, body1: &Body, body2: &Body) -> (r: Result<ForceVector, SimError>)
        requires
            self.total(),
        ensures
            match r {
                Ok(force) => self.exerts(*body1, *body2, force),
                Err(e) => e == SimError::DegenerateConfiguration && self.coincide(*body1, *body2),
            },
            !self.coincide(*body1, *body2) ==> r is Ok,
    {
        let dx = (self.sub)(body2.position.x, body1.position.x);
        let dy = (self.sub)(body2.position.y, body1.position.y);
        let xx = (self.mul)(dx, dx);
        let yy = (self.mul)(dy, dy);
        let distance_squared = (self.add)(xx, yy);
        assert(self.separation(*body1, *body2, dx, dy, distance_squared));
        if is_zero(distance_squared) {
            return Err(SimError::DegenerateConfiguration);
        }
        let gm = (self.mul)(GRAVITATIONAL_CONSTANT, body1.mass);
        let gmm = (self.mul)(gm, body2.mass);
        let force_magnitude = (self.div)(gmm, distance_squared);
        assert(self.attraction(*body1, *body2, distance_squared, force_magnitude));
        let force_x = self.project(force_magnitude, dx, distance_squared);
        let force_y = self.project(force_magnitude, dy, distance_squared);
        Ok(Vector { x: force_x, y: force_y })
    }

    /// One component of a force: `(magnitude * delta) / sqrt(d2)`.
    fn project(&self, magnitude: u64, delta: u64, d2: u64) -> (part: u64)
        requires
            self.total(),
        ensures
            self.component(magnitude, delta, d2, part),
    {
        let scaled = (self.mul)(magnitude, delta);
        let distance = (self.sqrt)(d2);
        (self.div)(scaled, distance)
    }
}

} // verus!
