//! With operations that give one result for each pair of operands, a run is
//! a function of the bodies it starts from: whichever process makes it, and
//! whatever number of processes take part.

use crate::body::{Body, ForceVector};
use crate::engine::Engine;
use crate::error::SimError;
use crate::integrator::invalid_mass;
use crate::wire::{decoded, image, lemma_round_trip};
use vstd::prelude::*;

verus! {

impl<A, S, M, D, R> Engine<A, S, M, D, R> where
    A: Fn(u64, u64) -> u64,
    S: Fn(u64, u64) -> u64,
    M: Fn(u64, u64) -> u64,
    D: Fn(u64, u64) -> u64,
    R: Fn(u64) -> u64,
 {
    /// Two bodies have one separation.
    proof fn lemma_one_separation(
        &self,
        a: Body,
        b: Body,
        first: (u64, u64, u64),
        second: (u64, u64, u64),
    )
        requires
            self.deterministic(),
            self.separation(a, b, first.0, first.1, first.2),
            self.separation(a, b, second.0, second.1, second.2),
        ensures
            first == second,
    {
    }

    /// One body exerts one force on another.
    pub proof fn lemma_one_force(&self, a: Body, b: Body, first: ForceVector, second: ForceVector)
        requires
            self.deterministic(),
            self.exerts(a, b, first),
            self.exerts(a, b, second),
        ensures
            first == second,
    {
        let (dx1, dy1, d1, m1) = choose|dx: u64, dy: u64, d2: u64, magnitude: u64|
            {
                &&& self.separation(a, b, dx, dy, d2)
                &&& self.attraction(a, b, d2, magnitude)
                &&& self.component(magnitude, dx, d2, first.x)
                &&& self.component(magnitude, dy, d2, first.y)
            };
        let (dx2, dy2, d2, m2) = choose|dx: u64, dy: u64, d2: u64, magnitude: u64|
            {
                &&& self.separation(a, b, dx, dy, d2)
                &&& self.attraction(a, b, d2, magnitude)
                &&& self.component(magnitude, dx, d2, second.x)
                &&& self.component(magnitude, dy, d2, second.y)
            };
        self.lemma_one_separation(a, b, (dx1, dy1, d1), (dx2, dy2, d2));
    }

    /// The bodies below `k` exert one partial force on body `i`.
    proof fn lemma_one_partial_force(
        &self,
        bodies: Seq<Body>,
        i: int,
        k: int,
        first: ForceVector,
        second: ForceVector,
    )
        requires
            self.deterministic(),
            self.partial_force(bodies, i, k, first),
            self.partial_force(bodies, i, k, second),
        ensures
            first == second,
        decreases k,
    {
        if k <= 0 {
        } else if k - 1 == i {
            self.lemma_one_partial_force(bodies, i, k - 1, first, second);
        } else {
            let (p1, f1) = choose|partial: ForceVector, force: ForceVector|
                {
                    &&& self.partial_force(bodies, i, k - 1, partial)
                    &&& self.exerts(bodies[i], bodies[k - 1], force)
                    &&& self.accumulates(partial, force, first)
                };
            let (p2, f2) = choose|partial: ForceVector, force: ForceVector|
                {
                    &&& self.partial_force(bodies, i, k - 1, partial)
                    &&& self.exerts(bodies[i], bodies[k - 1], force)
                    &&& self.accumulates(partial, force, second)
                };
            self.lemma_one_partial_force(bodies, i, k - 1, p1, p2);
            self.lemma_one_force(bodies[i], bodies[k - 1], f1, f2);
        }
    }

    /// A force moves a body to one place.
    pub proof fn lemma_one_advance(&self, before: Body, force: ForceVector, first: Body, second: Body)
        requires
            self.deterministic(),
            self.advances(before, force, first),
            self.advances(before, force, second),
        ensures
            first == second,
    {
    }

    /// Forces move a body set to one body set.
    pub proof fn lemma_one_integration(
        &self,
        before: Seq<Body>,
        forces: Seq<ForceVector>,
        first: Seq<Body>,
        second: Seq<Body>,
    )
        requires
            self.deterministic(),
            self.integrates(before, forces, first),
            self.integrates(before, forces, second),
        ensures
            first == second,
    {
        assert forall|i: int| 0 <= i < before.len() implies first[i] == second[i] by {
            self.lemma_one_advance(before[i], forces[i], first[i], second[i]);
        }
        assert(first =~= second);
    }
    /// A body set has one array of net forces.
    pub proof fn lemma_one_reduction(
        &self,
        bodies: Seq<Body>,
        first: Seq<ForceVector>,
        second: Seq<ForceVector>,
    )
        requires
            self.deterministic(),
            self.forces_of(bodies, first),
            self.forces_of(bodies, second),
        ensures
            first == second,
    {
        assert forall|i: int| 0 <= i < bodies.len() implies first[i] == second[i] by {
            self.lemma_one_partial_force(bodies, i, bodies.len() as int, first[i], second[i]);
        }
        assert(first =~= second);
    }

    /// A step takes a body set to one body set.
    pub proof fn lemma_one_step(&self, before: Seq<Body>, first: Seq<Body>, second: Seq<Body>)
        requires
            self.deterministic(),
            self.steps_to(before, first),
            self.steps_to(before, second),
        ensures
            first == second,
    {
        let f1 = choose|forces: Seq<ForceVector>|
            self.forces_of(before, forces) && self.integrates(before, forces, first);
        let f2 = choose|forces: Seq<ForceVector>|
            self.forces_of(before, forces) && self.integrates(before, forces, second);
        self.lemma_one_reduction(before, f1, f2);
        self.lemma_one_integration(before, f1, first, second);
    }

    /// Two runs of the same number of steps from the same bodies end with
    /// the same bodies, bit for bit.
    pub proof fn lemma_one_evolution(
        &self,
        start: Seq<Body>,
        n: nat,
        first: Seq<Body>,
        second: Seq<Body>,
    )
        requires
            self.deterministic(),
            self.evolves(start, n, first),
            self.evolves(start, n, second),
        ensures
            first == second,
        decreases n,
    {
        if n > 0 {
            let m1 = choose|mid: Seq<Body>|
                self.evolves(start, (n - 1) as nat, mid) && self.steps_to(mid, first);
            let m2 = choose|mid: Seq<Body>|
                self.evolves(start, (n - 1) as nat, mid) && self.steps_to(mid, second);
            self.lemma_one_evolution(start, (n - 1) as nat, m1, m2);
            self.lemma_one_step(m1, first, second);
        }
    }

    /// A participant that holds the bodies of the coordinator, and moves
    /// them under what it decodes of the forces that the coordinator found
    /// and encoded, makes the step that a process alone makes.
    pub proof fn lemma_adopted_step(
        &self,
        bodies: Seq<Body>,
        forces: Seq<ForceVector>,
        adopted: Seq<ForceVector>,
        after: Seq<Body>,
    )
        requires
            self.forces_of(bodies, forces),
            decoded(image(forces), bodies.len()) == Ok::<Seq<ForceVector>, SimError>(adopted),
            !invalid_mass(bodies),
            self.integrates(bodies, adopted, after),
        ensures
            self.steps_to(bodies, after),
    {
        lemma_round_trip(forces);
    }
}

} // verus!
