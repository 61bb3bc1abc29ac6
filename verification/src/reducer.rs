//! The net force on every body: the sum of the pulls of all the others.

use crate::body::{Body, ForceVector, Vector};
use crate::engine::Engine;
use crate::error::SimError;
use crate::scalar::ZERO;
use rayon::iter::{IntoParallelIterator, ParallelIterator};
use vstd::prelude::*;

verus! {

impl<A, S, M, D, R> Engine<A, S, M, D, R> where
    A: Fn(u64, u64) -> u64,
    S: Fn(u64, u64) -> u64,
    M: Fn(u64, u64) -> u64,
    D: Fn(u64, u64) -> u64,
    R: Fn(u64) -> u64,
 {
    /// `total` is `partial + force`, component by component.
    pub open spec fn accumulates(
        &self,
        partial: ForceVector,
        force: ForceVector,
        total: ForceVector,
    ) -> bool {
        self.sum(partial.x, force.x, total.x) && self.sum(partial.y, force.y, total.y)
    }

    /// `total` is what the bodies of index below `k`, body `i` left out,
    /// exert on body `i`: the sum of their pulls, begun at zero and taken in
    /// ascending order of index.
    pub open spec fn partial_force(
        &self,
        bodies: Seq<Body>,
        i: int,
        k: int,
        total: ForceVector,
    ) -> bool
        decreases k,
    {
        if k <= 0 {
            total == (Vector { x: ZERO, y: ZERO })
        } else if k - 1 == i {
            self.partial_force(bodies, i, k - 1, total)
        } else {
            exists|partial: ForceVector, force: ForceVector|
                {
                    &&& self.partial_force(bodies, i, k - 1, partial)
                    &&& self.exerts(bodies[i], bodies[k - 1], force)
                    &&& self.accumulates(partial, force, total)
                }
        }
    }

    /// `total` is the net force on body `i`.
    pub open spec fn net_force_is(&self, bodies: Seq<Body>, i: int, total: ForceVector) -> bool {
        self.partial_force(bodies, i, bodies.len() as int, total)
    }

    /// Body `i` and some other body coincide.
    pub open spec fn collides(&self, bodies: Seq<Body>, i: int) -> bool {
        exists|j: int|
            0 <= j < bodies.len() && j != i && self.coincide(bodies[i], #[trigger] bodies[j])
    }

    /// What `net_force` may return for body `i`.
    pub open spec fn net_force_outcome(
        &self,
        bodies: Seq<Body>,
        i: int,
        outcome: Result<ForceVector, SimError>,
    ) -> bool {
        match outcome {
            Ok(total) => self.net_force_is(bodies, i, total),
            Err(e) => e == SimError::DegenerateConfiguration && self.collides(bodies, i),
        }
    }

    /// `forces` holds the net force on every body, in the order of the bodies.
    pub open spec fn forces_of(&self, bodies: Seq<Body>, forces: Seq<ForceVector>) -> bool {
        &&& forces.len() == bodies.len()
        &&& forall|i: int|
            0 <= i < bodies.len() ==> self.net_force_is(bodies, i, #[trigger] forces[i])
    }

    /// Some two bodies coincide.
    pub open spec fn has_collision(&self, bodies: Seq<Body>) -> bool {
        exists|i: int| 0 <= i < bodies.len() && #[trigger] self.collides(bodies, i)
    }

    /// The net force on body `i`: the pulls of all other bodies, added up in
    /// ascending order of their index.
    pub fn net_force(&self, bodies: &Vec<Body>, i: usize) -> (r: Result<ForceVector, SimError>)
        requires
            self.total(),
            i < bodies.len(),
        ensures
            self.net_force_outcome(bodies@, i as int, r),
    {
        let mut total = Vector { x: ZERO, y: ZERO };
        let mut j: usize = 0;
        while j < bodies.len()
            invariant
                self.total(),
                i < bodies.len(),
                j <= bodies.len(),
                self.partial_force(bodies@, i as int, j as int, total),
            decreases bodies.len() - j,
        {
            if i != j {
                let force = match self.calculate_force(&bodies[i], &bodies[j]) {
                    Ok(force) => force,
                    Err(e) => {
                        return Err(e);
                    },
                };
                let next = Vector {
                    x: (self.add)(total.x, force.x),
                    y: (self.add)(total.y, force.y),
                };
                assert(self.accumulates(total, force, next));
                total = next;
            }
            j += 1;
        }
        Ok(total)
    }
}

impl<A, S, M, D, R> Engine<A, S, M, D, R> where
    A: Fn(u64, u64) -> u64 + Sync,
    S: Fn(u64, u64) -> u64 + Sync,
    M: Fn(u64, u64) -> u64 + Sync,
    D: Fn(u64, u64) -> u64 + Sync,
    R: Fn(u64) -> u64 + Sync,
 {
    /// Runs `net_force` for every index on rayon's thread pool, through
    /// `into_par_iter`, `map` and `collect` on the range of the indices. The
    /// contract claims what rayon documents of the three: the closure is
    /// applied to each index, and the results stand in a vector in the
    /// order of the indices. What the closure returns for an index is then
    /// what the contract of `net_force` says.
    #[verifier::external_body]
    fn net_forces(&self, bodies: &Vec<Body>) -> (outcomes: Vec<Result<ForceVector, SimError>>)
        requires
            self.total(),
        ensures
            outcomes@.len() == bodies@.len(),
            forall|i: int|
                0 <= i < bodies@.len() ==> self.net_force_outcome(
                    bodies@,
                    i,
                    #[trigger] outcomes@[i],
                ),
    {
        (0..bodies.len()).into_par_iter().map(|i| self.net_force(bodies, i)).collect()
    }

    /// The net force on every body. The bodies are borrowed for the whole
    /// call, so every worker reads the same snapshot. The workers take one
    /// body each; the order in which each of them adds is fixed.
    pub fn reduce_forces(&self, bodies: &Vec<Body>) -> (r: Result<Vec<ForceVector>, SimError>)
        requires
            self.total(),
        ensures
            match r {
                Ok(forces) => self.forces_of(bodies@, forces@),
                Err(e) => e == SimError::DegenerateConfiguration && self.has_collision(bodies@),
            },
            !self.has_collision(bodies@) ==> r is Ok,
    {
        let outcomes = self.net_forces(bodies);
        let mut forces: Vec<ForceVector> = Vec::new();
        let mut i: usize = 0;
        while i < outcomes.len()
            invariant
                outcomes@.len() == bodies@.len(),
                forall|k: int|
                    0 <= k < bodies@.len() ==> self.net_force_outcome(
                        bodies@,
                        k,
                        #[trigger] outcomes@[k],
                    ),
                i <= outcomes.len(),
                forces@.len() == i,
                forall|k: int| 0 <= k < i ==> self.net_force_is(bodies@, k, #[trigger] forces@[k]),
            decreases outcomes.len() - i,
        {
            match outcomes[i] {
                Ok(force) => {
                    forces.push(force);
                },
                Err(e) => {
                    assert(self.collides(bodies@, i as int));
                    return Err(e);
                },
            }
            i += 1;
        }
        Ok(forces)
    }
}

} // verus!
