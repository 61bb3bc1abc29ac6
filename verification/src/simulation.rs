//! Whole steps of a single process: forces first, then the update.

use crate::body::{Body, ForceVector};
use crate::engine::Engine;
use crate::error::SimError;
use crate::integrator::invalid_mass;
use vstd::prelude::*;

verus! {

impl<A, S, M, D, R> Engine<A, S, M, D, R> where
    A: Fn(u64, u64) -> u64,
    S: Fn(u64, u64) -> u64,
    M: Fn(u64, u64) -> u64,
    D: Fn(u64, u64) -> u64,
    R: Fn(u64) -> u64,
 {
    /// One step takes `before` to `after`: every mass is positive, and
    /// `after` is `before` moved under the net forces among `before`.
    pub open spec fn steps_to(&self, before: Seq<Body>, after: Seq<Body>) -> bool {
        exists|forces: Seq<ForceVector>|
            {
                &&& self.forces_of(before, forces)
                &&& !invalid_mass(before)
                &&& self.integrates(before, forces, after)
            }
    }

    /// A step from `bodies` can fail with `e`: either two bodies coincide,
    /// or the forces are found and some mass is zero or negative.
    pub open spec fn step_fails(&self, bodies: Seq<Body>, e: SimError) -> bool {
        match e {
            SimError::DegenerateConfiguration => self.has_collision(bodies),
            SimError::InvalidMass => invalid_mass(bodies) && exists|forces: Seq<ForceVector>|
                self.forces_of(bodies, forces),
            _ => false,
        }
    }

    /// `n` steps take `start` to `end`.
    pub open spec fn evolves(&self, start: Seq<Body>, n: nat, end: Seq<Body>) -> bool
        decreases n,
    {
        if n == 0 {
            end == start
        } else {
            exists|mid: Seq<Body>|
                self.evolves(start, (n - 1) as nat, mid) && self.steps_to(mid, end)
        }
    }
}

impl<A, S, M, D, R> Engine<A, S, M, D, R> where
    A: Fn(u64, u64) -> u64 + Sync,
    S: Fn(u64, u64) -> u64 + Sync,
    M: Fn(u64, u64) -> u64 + Sync,
    D: Fn(u64, u64) -> u64 + Sync,
    R: Fn(u64) -> u64 + Sync,
 {
    /// Advances the bodies by one step: the net forces are computed from the
    /// bodies as they stand, then every body is moved. A step that fails
    /// moves nothing.
    pub fn step(&self, bodies: &mut Vec<Body>) -> (r: Result<(), SimError>)
        requires
            self.total(),
        ensures
            match r {
                Ok(_) => self.steps_to(old(bodies)@, final(bodies)@),
                Err(e) => final(bodies)@ == old(bodies)@ && self.step_fails(old(bodies)@, e),
            },
            invalid_mass(old(bodies)@) ==> r is Err,
            !invalid_mass(old(bodies)@) && !self.has_collision(old(bodies)@) ==> r is Ok,
    {
        let forces = match self.reduce_forces(bodies) {
            Ok(forces) => forces,
            Err(e) => {
                return Err(e);
            },
        };
        self.integrate(bodies, &forces)
    }

    /// Advances the bodies by `steps` steps, or as far as the steps succeed:
    /// after a failure the bodies stand as the last whole step left them.
    /// With no step to make, the bodies are left untouched.
    pub fn run(&self, bodies: &mut Vec<Body>, steps: u64) -> (r: Result<(), SimError>)
        requires
            self.total(),
        ensures
            match r {
                Ok(_) => self.evolves(old(bodies)@, steps as nat, final(bodies)@),
                Err(e) => exists|done: nat|
                    {
                        &&& done < steps
                        &&& self.evolves(old(bodies)@, done, final(bodies)@)
                        &&& self.step_fails(final(bodies)@, e)
                    },
            },
            steps == 0 ==> r is Ok && final(bodies)@ == old(bodies)@,
    {
        let mut done: u64 = 0;
        while done < steps
            invariant
                self.total(),
                done <= steps,
                self.evolves(old(bodies)@, done as nat, bodies@),
            decreases steps - done,
        {
            let ghost before = bodies@;
            match self.step(bodies) {
                Ok(_) => {},
                Err(e) => {
                    return Err(e);
                },
            }
            assert(self.steps_to(before, bodies@));
            done += 1;
        }
        Ok(())
    }
}

} // verus!
