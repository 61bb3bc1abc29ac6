//! A run as one process makes it: what the process holds after it has
//! performed the actions of its script, and why that is the same on every
//! process.

use crate::body::{Body, ForceVector};
use crate::driver::{
    closing, distribution, opening, report, script, step_script, steps_script, transfers, Action,
    Config,
};
use crate::engine::Engine;
use crate::error::SimError;
use crate::integrator::invalid_mass;
use crate::wire::{decoded, image};
use vstd::prelude::*;

verus! {

/// What a process holds between two actions.
pub struct Holding {
    /// The bodies as they stand.
    pub bodies: Seq<Body>,
    /// The forces of the step in progress.
    pub forces: Seq<ForceVector>,
    /// The number of force arrays received so far.
    pub received: nat,
}

/// The action leaves what a process holds as it is.
pub open spec fn idle(action: Action) -> bool {
    !(action is ComputeForces || action is ReceiveForces || action is Integrate)
}

impl<A, S, M, D, R> Engine<A, S, M, D, R> where
    A: Fn(u64, u64) -> u64,
    S: Fn(u64, u64) -> u64,
    M: Fn(u64, u64) -> u64,
    D: Fn(u64, u64) -> u64,
    R: Fn(u64) -> u64,
 {
    /// The action takes a process from `before` to `after`, where
    /// `arrivals` are the force arrays that the process decodes of what it
    /// receives, in the order of their arrival. Finding the forces puts the
    /// net forces of the bodies in the place of the forces held; a receipt
    /// puts the array that arrives there; the update moves the bodies under
    /// the forces held; every other action changes nothing.
    pub open spec fn performs(
        &self,
        action: Action,
        before: Holding,
        arrivals: Seq<Seq<ForceVector>>,
        after: Holding,
    ) -> bool {
        match action {
            Action::ComputeForces => {
                &&& after.bodies == before.bodies
                &&& after.received == before.received
                &&& self.forces_of(before.bodies, after.forces)
            },
            Action::ReceiveForces { .. } => {
                &&& after.bodies == before.bodies
                &&& after.received == before.received + 1
                &&& after.forces == arrivals[before.received as int]
            },
            Action::Integrate => {
                &&& after.forces == before.forces
                &&& after.received == before.received
                &&& !invalid_mass(before.bodies)
                &&& self.integrates(before.bodies, before.forces, after.bodies)
            },
            _ => after == before,
        }
    }

    /// The actions, performed in order, take a process from `start` to
    /// `end`.
    pub open spec fn plays(
        &self,
        actions: Seq<Action>,
        start: Holding,
        arrivals: Seq<Seq<ForceVector>>,
        end: Holding,
    ) -> bool
        decreases actions.len(),
    {
        if actions.len() == 0 {
            end == start
        } else {
            exists|mid: Holding|
                {
                    &&& self.plays(actions.drop_last(), start, arrivals, mid)
                    &&& self.performs(actions.last(), mid, arrivals, end)
                }
        }
    }

    /// `arrival` is what a participant decodes of the net forces that a
    /// coordinator found and encoded in the step of index `k`, on bodies
    /// that `k` steps had made of `start`.
    pub open spec fn arrives(&self, start: Seq<Body>, k: nat, arrival: Seq<ForceVector>) -> bool {
        exists|bodies: Seq<Body>, forces: Seq<ForceVector>|
            {
                &&& self.evolves(start, k, bodies)
                &&& self.forces_of(bodies, forces)
                &&& decoded(image(forces), bodies.len()) == Ok::<Seq<ForceVector>, SimError>(
                    arrival,
                )
            }
    }

    /// Each of the first `n` arrivals is what the coordinator sent in the
    /// step of its index.
    pub open spec fn faithful(
        &self,
        start: Seq<Body>,
        arrivals: Seq<Seq<ForceVector>>,
        n: nat,
    ) -> bool {
        forall|k: nat| k < n ==> #[trigger] self.arrives(start, k, arrivals[k as int])
    }

    /// A sequence of actions is played by playing a first part of it and
    /// then the rest.
    proof fn lemma_plays_split(
        &self,
        first: Seq<Action>,
        rest: Seq<Action>,
        start: Holding,
        arrivals: Seq<Seq<ForceVector>>,
        end: Holding,
    ) -> (mid: Holding)
        requires
            self.plays(first + rest, start, arrivals, end),
        ensures
            self.plays(first, start, arrivals, mid),
            self.plays(rest, mid, arrivals, end),
        decreases rest.len(),
    {
        if rest.len() == 0 {
            assert(first + rest =~= first);
            end
        } else {
            let whole = first + rest;
            assert(whole.drop_last() =~= first + rest.drop_last());
            assert(whole.last() == rest.last());
            let before = choose|before: Holding|
                {
                    &&& self.plays(whole.drop_last(), start, arrivals, before)
                    &&& self.performs(whole.last(), before, arrivals, end)
                };
            self.lemma_plays_split(first, rest.drop_last(), start, arrivals, before)
        }
    }

    /// Idle actions leave what a process holds as it is.
    proof fn lemma_plays_idle(
        &self,
        actions: Seq<Action>,
        start: Holding,
        arrivals: Seq<Seq<ForceVector>>,
        end: Holding,
    )
        requires
            self.plays(actions, start, arrivals, end),
            forall|i: int| 0 <= i < actions.len() ==> idle(#[trigger] actions[i]),
        ensures
            end == start,
        decreases actions.len(),
    {
        if actions.len() > 0 {
            let before = choose|before: Holding|
                {
                    &&& self.plays(actions.drop_last(), start, arrivals, before)
                    &&& self.performs(actions.last(), before, arrivals, end)
                };
            self.lemma_plays_idle(actions.drop_last(), start, arrivals, before);
        }
    }

    /// To play one action is to perform it.
    proof fn lemma_plays_one(
        &self,
        action: Action,
        start: Holding,
        arrivals: Seq<Seq<ForceVector>>,
        end: Holding,
    )
        requires
            self.plays(seq![action], start, arrivals, end),
        ensures
            self.performs(action, start, arrivals, end),
    {
        let actions = seq![action];
        assert(actions.drop_last() =~= Seq::<Action>::empty());
        let before = choose|before: Holding|
            {
                &&& self.plays(actions.drop_last(), start, arrivals, before)
                &&& self.performs(actions.last(), before, arrivals, end)
            };
        assert(self.plays(Seq::<Action>::empty(), start, arrivals, before));
    }

    /// The number of arrays that a process of `config` has received when
    /// `k` steps are made.
    pub open spec fn receipts(config: Config, k: nat) -> nat {
        if config.distributed() && !config.coordinator() {
            k
        } else {
            0
        }
    }

    /// The distribution of a step leaves the bodies alone, and leaves a
    /// participant with the array that arrived in this step.
    proof fn lemma_plays_distribution(
        &self,
        config: Config,
        k: nat,
        start: Holding,
        arrivals: Seq<Seq<ForceVector>>,
        end: Holding,
    )
        requires
            self.plays(distribution(config), start, arrivals, end),
            start.received == Self::receipts(config, k),
        ensures
            end.bodies == start.bodies,
            end.received == Self::receipts(config, k + 1),
            end.forces == if config.distributed() && !config.coordinator() {
                arrivals[k as int]
            } else {
                start.forces
            },
    {
        if !config.distributed() {
            self.lemma_plays_idle(distribution(config), start, arrivals, end);
        } else if config.coordinator() {
            self.lemma_plays_idle(distribution(config), start, arrivals, end);
        } else {
            let barrier = seq![Action::Barrier];
            let second = self.lemma_plays_split(
                barrier + transfers(config),
                barrier,
                start,
                arrivals,
                end,
            );
            let first = self.lemma_plays_split(barrier, transfers(config), start, arrivals, second);
            self.lemma_plays_idle(barrier, start, arrivals, first);
            self.lemma_plays_one(Action::ReceiveForces { from: 0 }, first, arrivals, second);
            self.lemma_plays_idle(barrier, second, arrivals, end);
        }
    }

    /// A process that has made `k` steps as a process alone makes them, and
    /// plays the step of index `k`, has made `k + 1` steps as a process
    /// alone makes them.
    proof fn lemma_plays_step(
        &self,
        config: Config,
        origin: Seq<Body>,
        k: nat,
        start: Holding,
        arrivals: Seq<Seq<ForceVector>>,
        end: Holding,
    )
        requires
            self.deterministic(),
            self.faithful(origin, arrivals, k + 1),
            self.evolves(origin, k, start.bodies),
            start.received == Self::receipts(config, k),
            self.plays(step_script(config, k as int), start, arrivals, end),
        ensures
            self.evolves(origin, k + 1, end.bodies),
            end.received == Self::receipts(config, k + 1),
    {
        let compute = seq![Action::ComputeForces];
        let integrate = seq![Action::Integrate];
        let spread = distribution(config);
        let told = report(config, k as int);
        let moved = self.lemma_plays_split(compute + spread + integrate, told, start, arrivals, end);
        let adopted = self.lemma_plays_split(compute + spread, integrate, start, arrivals, moved);
        let found = self.lemma_plays_split(compute, spread, start, arrivals, adopted);
        self.lemma_plays_one(Action::ComputeForces, start, arrivals, found);
        self.lemma_plays_distribution(config, k, found, arrivals, adopted);
        self.lemma_plays_one(Action::Integrate, adopted, arrivals, moved);
        self.lemma_plays_idle(told, moved, arrivals, end);
        if config.distributed() && !config.coordinator() {
            assert(self.arrives(origin, k, arrivals[k as int]));
            let (bodies, forces) = choose|bodies: Seq<Body>, forces: Seq<ForceVector>|
                {
                    &&& self.evolves(origin, k, bodies)
                    &&& self.forces_of(bodies, forces)
                    &&& decoded(image(forces), bodies.len()) == Ok::<Seq<ForceVector>, SimError>(
                        arrivals[k as int],
                    )
                };
            self.lemma_one_evolution(origin, k, bodies, start.bodies);
            self.lemma_adopted_step(start.bodies, forces, arrivals[k as int], end.bodies);
        } else {
            assert(self.steps_to(start.bodies, end.bodies));
        }
    }

    /// A process that plays its first `n` steps makes `n` steps as a process
    /// alone makes them.
    proof fn lemma_plays_steps(
        &self,
        config: Config,
        n: nat,
        start: Holding,
        arrivals: Seq<Seq<ForceVector>>,
        end: Holding,
    )
        requires
            self.deterministic(),
            self.faithful(start.bodies, arrivals, n),
            start.received == 0,
            self.plays(steps_script(config, n as int), start, arrivals, end),
        ensures
            self.evolves(start.bodies, n, end.bodies),
            end.received == Self::receipts(config, n),
        decreases n,
    {
        if n > 0 {
            let before = self.lemma_plays_split(
                steps_script(config, n - 1),
                step_script(config, n - 1),
                start,
                arrivals,
                end,
            );
            self.lemma_plays_steps(config, (n - 1) as nat, start, arrivals, before);
            self.lemma_plays_step(config, start.bodies, (n - 1) as nat, before, arrivals, end);
        }
    }

    /// Every process of a run ends with the bodies that a process alone ends
    /// with, bit for bit, whatever its rank and whatever the number of
    /// processes: if it starts from the same bodies, plays its script to the
    /// end, and adopts in every step what the coordinator found in that
    /// step.
    pub proof fn lemma_every_process_ends_alike(
        &self,
        config: Config,
        start: Holding,
        arrivals: Seq<Seq<ForceVector>>,
        end: Holding,
        alone: Seq<Body>,
    )
        requires
            self.deterministic(),
            start.received == 0,
            self.faithful(start.bodies, arrivals, config.steps as nat),
            self.plays(script(config), start, arrivals, end),
            self.evolves(start.bodies, config.steps as nat, alone),
        ensures
            end.bodies == alone,
    {
        let steps = steps_script(config, config.steps as int);
        let closed = self.lemma_plays_split(
            opening(config) + steps,
            closing(config),
            start,
            arrivals,
            end,
        );
        let opened = self.lemma_plays_split(opening(config), steps, start, arrivals, closed);
        self.lemma_plays_idle(opening(config), start, arrivals, opened);
        self.lemma_plays_idle(closing(config), closed, arrivals, end);
        self.lemma_plays_steps(config, config.steps as nat, start, arrivals, closed);
        self.lemma_one_evolution(start.bodies, config.steps as nat, closed.bodies, alone);
    }
}

} // verus!
