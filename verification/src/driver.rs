//! The order of work of one process of a run.
//!
//! A run is a fixed sequence of actions, its script. The driver hands the
//! actions out one by one; the process that holds it performs each action
//! before it asks for the next one.

use vstd::prelude::*;

verus! {

/// The largest number of steps that a run may be configured with.
pub const MAX_STEPS: u64 = 1_000_000_000_000;

/// What one process knows of the run it takes part in.
#[derive(Clone, Copy, Debug, PartialEq, Eq, Structural)]
pub struct Config {
    /// The rank of this process; rank 0 is the coordinator.
    pub rank: u32,
    /// The number of processes that take part.
    pub size: u32,
    /// The number of steps to make.
    pub steps: u64,
    /// A snapshot is reported after every `cadence` steps; 0 reports none.
    pub cadence: u64,
}

/// One piece of work of a process.
#[derive(Clone, Copy, Debug, PartialEq, Eq, Structural)]
pub enum Action {
    /// Report the bodies as they stand before the first step.
    EmitInitial,
    /// Compute the net forces from the bodies as they stand.
    ComputeForces,
    /// Wait until every process has arrived at this barrier.
    Barrier,
    /// Send the encoded force array to the process of rank `to`.
    SendForces { to: u32 },
    /// Receive the force array from the process of rank `from`, and adopt it.
    ReceiveForces { from: u32 },
    /// Move the bodies under the forces of this step.
    Integrate,
    /// Report the bodies as they stand after the step of index `step`.
    EmitSnapshot { step: u64 },
    /// Report the bodies as they stand after the last step.
    EmitFinal,
}

/// The states of a run.
#[derive(Clone, Copy, Debug, PartialEq, Eq, Structural)]
pub enum Phase {
    Initializing,
    Stepping,
    Reporting,
    Terminated,
}

impl Config {
    /// The rank is one of the `size` ranks, and the step count is in bounds.
    pub open spec fn valid(self) -> bool {
        self.rank < self.size && self.steps <= MAX_STEPS
    }

    /// This process is the coordinator.
    pub open spec fn coordinator(self) -> bool {
        self.rank == 0
    }

    /// More than one process takes part.
    pub open spec fn distributed(self) -> bool {
        self.size > 1
    }

    /// This process reports a snapshot after the step of index `step`.
    pub open spec fn reports(self, step: int) -> bool {
        self.coordinator() && self.cadence > 0 && (step + 1) % (self.cadence as int) == 0
    }
}

/// What a process does before the first step.
pub open spec fn opening(config: Config) -> Seq<Action> {
    if config.coordinator() {
        seq![Action::EmitInitial]
    } else {
        Seq::empty()
    }
}

/// The transfers from the coordinator to the ranks from 1 to `upto - 1`, in
/// ascending order.
pub open spec fn sends(upto: int) -> Seq<Action> {
    Seq::new((upto - 1) as nat, |i: int| Action::SendForces { to: (i + 1) as u32 })
}

/// The transfers of one step: the coordinator sends to every other rank,
/// and every other rank receives from the coordinator.
pub open spec fn transfers(config: Config) -> Seq<Action> {
    if config.coordinator() {
        sends(config.size as int)
    } else {
        seq![Action::ReceiveForces { from: 0 }]
    }
}

/// The distribution of the forces of one step: a barrier, the transfers,
/// and a second barrier. A process that runs alone skips all of it.
pub open spec fn distribution(config: Config) -> Seq<Action> {
    if config.distributed() {
        seq![Action::Barrier] + transfers(config) + seq![Action::Barrier]
    } else {
        Seq::empty()
    }
}

/// The report that follows the step of index `step`, if one is due.
pub open spec fn report(config: Config, step: int) -> Seq<Action> {
    if config.reports(step) {
        seq![Action::EmitSnapshot { step: step as u64 }]
    } else {
        Seq::empty()
    }
}

/// The step of index `step`: forces, distribution, update, report.
pub open spec fn step_script(config: Config, step: int) -> Seq<Action> {
    seq![Action::ComputeForces] + distribution(config) + seq![Action::Integrate] + report(
        config,
        step,
    )
}

/// The first `n` steps, one after the other.
pub open spec fn steps_script(config: Config, n: int) -> Seq<Action>
    decreases n,
{
    if n <= 0 {
        Seq::empty()
    } else {
        steps_script(config, n - 1) + step_script(config, n - 1)
    }
}

/// What a process does after the last step.
pub open spec fn closing(config: Config) -> Seq<Action> {
    if config.coordinator() {
        seq![Action::EmitFinal]
    } else {
        Seq::empty()
    }
}

/// Everything that a process does in a run, in order.
pub open spec fn script(config: Config) -> Seq<Action> {
    opening(config) + steps_script(config, config.steps as int) + closing(config)
}

/// The state of a run in which `done` actions of its script are done, by
/// the action that comes next: the initial snapshot belongs to
/// `Initializing`, a snapshot after a step to `Reporting`, the final
/// snapshot and the end of the script to `Terminated`, all else to
/// `Stepping`.
pub open spec fn phase_at(config: Config, done: int) -> Phase {
    if 0 <= done < script(config).len() {
        match script(config)[done] {
            Action::EmitInitial => Phase::Initializing,
            Action::EmitSnapshot { .. } => Phase::Reporting,
            Action::EmitFinal => Phase::Terminated,
            _ => Phase::Stepping,
        }
    } else {
        Phase::Terminated
    }
}

/// The action is work on the bodies: finding the forces, or moving the
/// bodies under them.
pub open spec fn works(action: Action) -> bool {
    action is ComputeForces || action is Integrate
}

/// The work on the bodies among `actions`, in order.
pub open spec fn work(actions: Seq<Action>) -> Seq<Action> {
    actions.filter(|action: Action| works(action))
}

/// The work of `n` steps of a process alone: the forces, then the update,
/// `n` times.
pub open spec fn work_of_steps(n: int) -> Seq<Action>
    decreases n,
{
    if n <= 0 {
        Seq::empty()
    } else {
        work_of_steps(n - 1) + seq![Action::ComputeForces, Action::Integrate]
    }
}

/// Actions of which none is work hold no work.
proof fn lemma_no_work(actions: Seq<Action>)
    requires
        forall|i: int| 0 <= i < actions.len() ==> !works(#[trigger] actions[i]),
    ensures
        work(actions) == Seq::<Action>::empty(),
    decreases actions.len(),
{
    reveal(Seq::filter);
    if actions.len() > 0 {
        lemma_no_work(actions.drop_last());
    }
}

/// An action that is work is all the work of the sequence that holds it
/// alone.
proof fn lemma_work_of_one(action: Action)
    requires
        works(action),
    ensures
        work(seq![action]) == seq![action],
{
    reveal_with_fuel(Seq::filter, 2);
    assert(seq![action].drop_last() =~= Seq::<Action>::empty());
}

/// The work of one step is to find the forces and then to move the bodies.
proof fn lemma_work_of_step(config: Config, step: int)
    ensures
        work(step_script(config, step)) == seq![Action::ComputeForces, Action::Integrate],
{
    let pred = |action: Action| works(action);
    let first = seq![Action::ComputeForces];
    let second = seq![Action::Integrate];
    lemma_work_of_one(Action::ComputeForces);
    lemma_work_of_one(Action::Integrate);
    lemma_no_work(distribution(config));
    lemma_no_work(report(config, step));
    Seq::filter_distributes_over_add(first, distribution(config), pred);
    Seq::filter_distributes_over_add(first + distribution(config), second, pred);
    Seq::filter_distributes_over_add(
        first + distribution(config) + second,
        report(config, step),
        pred,
    );
    assert(first + Seq::<Action>::empty() + second + Seq::<Action>::empty()
        =~= seq![Action::ComputeForces, Action::Integrate]);
}

/// The work of the first `n` steps is that of `n` steps of a process alone.
proof fn lemma_work_of_steps(config: Config, n: int)
    ensures
        work(steps_script(config, n)) == work_of_steps(n),
    decreases n,
{
    if n <= 0 {
        lemma_no_work(steps_script(config, n));
    } else {
        lemma_work_of_steps(config, n - 1);
        lemma_work_of_step(config, n - 1);
        Seq::filter_distributes_over_add(
            steps_script(config, n - 1),
            step_script(config, n - 1),
            |action: Action| works(action),
        );
    }
}

/// Whatever its rank, the number of processes and the cadence of its
/// reports, a process finds the forces and then moves the bodies once in
/// every step, and does no other work on the bodies.
pub proof fn lemma_work_of_script(config: Config)
    ensures
        work(script(config)) == work_of_steps(config.steps as int),
{
    let pred = |action: Action| works(action);
    let steps = steps_script(config, config.steps as int);
    lemma_no_work(opening(config));
    lemma_no_work(closing(config));
    lemma_work_of_steps(config, config.steps as int);
    Seq::filter_distributes_over_add(opening(config), steps, pred);
    Seq::filter_distributes_over_add(opening(config) + steps, closing(config), pred);
}

/// Where in its script a process stands: the action that it may give out
/// next.
#[derive(Clone, Copy, Debug, PartialEq, Eq, Structural)]
enum Stage {
    Open,
    Compute,
    FirstBarrier,
    Transfer { next: u32 },
    SecondBarrier,
    Integrate,
    Report,
    Close,
    Done,
}

/// Hands out the actions of a run, one by one.
#[derive(Clone, Copy, Debug)]
pub struct Driver {
    config: Config,
    step: u64,
    stage: Stage,
}

/// The steps up to `k` begin the steps up to `n`.
proof fn lemma_steps_prefix(config: Config, k: int, n: int)
    requires
        0 <= k <= n,
    ensures
        steps_script(config, k).is_prefix_of(steps_script(config, n)),
    decreases n - k,
{
    if k < n {
        lemma_steps_prefix(config, k, n - 1);
    }
}

/// A beginning of `b` behind `head` begins `b` behind `head`, whatever
/// follows.
proof fn lemma_prefix_frame(head: Seq<Action>, a: Seq<Action>, b: Seq<Action>, tail: Seq<Action>)
    requires
        a.is_prefix_of(b),
    ensures
        (head + a).is_prefix_of(head + b + tail),
{
    let whole = head + b + tail;
    assert forall|i: int| 0 <= i < (head + a).len() implies (head + a)[i] == whole[i] by {
        if i >= head.len() {
            assert(a[i - head.len()] == b.subrange(0, a.len() as int)[i - head.len()]);
        }
    }
    assert(head + a =~= whole.subrange(0, (head + a).len() as int));
}

impl Driver {
    /// The configuration that the driver was made with.
    pub closed spec fn config(&self) -> Config {
        self.config
    }

    /// The driver stands at a place of its script.
    #[verifier::type_invariant]
    pub closed spec fn wf(&self) -> bool {
        &&& self.config.valid()
        &&& self.step <= self.config.steps
        &&& match self.stage {
            Stage::Open => self.step == 0,
            Stage::Compute => true,
            Stage::FirstBarrier | Stage::SecondBarrier => self.step < self.config.steps
                && self.config.distributed(),
            Stage::Transfer { next } => {
                &&& self.step < self.config.steps
                &&& self.config.distributed()
                &&& 1 <= next <= self.config.size
            },
            Stage::Integrate | Stage::Report => self.step < self.config.steps,
            Stage::Close | Stage::Done => self.step == self.config.steps,
        }
    }

    /// What has been given out of the step in progress.
    spec fn partial(&self) -> Seq<Action> {
        match self.stage {
            Stage::FirstBarrier => seq![Action::ComputeForces],
            Stage::Transfer { next } => seq![Action::ComputeForces, Action::Barrier] + (
            if self.config.coordinator() {
                sends(next as int)
            } else {
                Seq::empty()
            }),
            Stage::SecondBarrier => seq![Action::ComputeForces, Action::Barrier] + transfers(
                self.config,
            ),
            Stage::Integrate => seq![Action::ComputeForces] + distribution(self.config),
            Stage::Report => seq![Action::ComputeForces] + distribution(self.config)
                + seq![Action::Integrate],
            _ => Seq::empty(),
        }
    }

    /// The actions that the driver has given out so far, in order.
    pub closed spec fn emitted(&self) -> Seq<Action> {
        match self.stage {
            Stage::Open => Seq::empty(),
            Stage::Done => script(self.config),
            _ => opening(self.config) + steps_script(self.config, self.step as int)
                + self.partial(),
        }
    }

    /// What has been given out of the step in progress begins that step.
    proof fn lemma_partial_prefix(&self)
        requires
            self.wf(),
        ensures
            self.partial().is_prefix_of(step_script(self.config, self.step as int)),
    {
        let c = self.config;
        let whole = step_script(c, self.step as int);
        match self.stage {
            Stage::Transfer { next } => {
                if c.coordinator() {
                    assert(sends(next as int).is_prefix_of(sends(c.size as int)));
                }
            },
            _ => {},
        }
        assert(self.partial().is_prefix_of(whole));
    }

    /// What has been given out begins the script.
    pub proof fn lemma_emitted_prefix(&self)
        requires
            self.wf(),
        ensures
            self.emitted().is_prefix_of(script(self.config())),
    {
        let c = self.config;
        match self.stage {
            Stage::Open | Stage::Done => {},
            _ => {
                let done = steps_script(c, self.step as int);
                let all = steps_script(c, c.steps as int);
                self.lemma_partial_prefix();
                if self.step < c.steps {
                    let whole = step_script(c, self.step as int);
                    lemma_steps_prefix(c, self.step as int + 1, c.steps as int);
                    lemma_prefix_frame(done, self.partial(), whole, Seq::empty());
                    assert(done + whole + Seq::<Action>::empty() =~= steps_script(
                        c,
                        self.step as int + 1,
                    ));
                    assert((done + self.partial()).is_prefix_of(all));
                } else {
                    assert(done + self.partial() =~= all);
                }
                lemma_prefix_frame(opening(c), done + self.partial(), all, closing(c));
                assert(self.emitted() =~= opening(c) + (done + self.partial()));
            },
        }
    }

    /// A driver at the start of the script of `config`, if `config` is valid.
    pub fn new(config: Config) -> (r: Option<Driver>)
        ensures
            r is Some <==> config.valid(),
            r matches Some(driver) ==> driver.config() == config && driver.emitted()
                == Seq::<Action>::empty(),
    {
        if config.rank < config.size && config.steps <= MAX_STEPS {
            Some(Driver { config, step: 0, stage: Stage::Open })
        } else {
            None
        }
    }

    /// The order of the stages within one step, counted down.
    spec fn rank(&self) -> int {
        match self.stage {
            Stage::Open => 8,
            Stage::Compute => 7,
            Stage::FirstBarrier => 6,
            Stage::Transfer { .. } => 5,
            Stage::SecondBarrier => 4,
            Stage::Integrate => 3,
            Stage::Report => 2,
            Stage::Close => 1,
            Stage::Done => 0,
        }
    }

    /// The place that follows this one, and the action that stands between
    /// the two, if there is one.
    spec fn successor(&self) -> (Driver, Option<Action>) {
        let c = self.config;
        match self.stage {
            Stage::Open => (
                Driver { stage: Stage::Compute, ..*self },
                if c.coordinator() {
                    Some(Action::EmitInitial)
                } else {
                    None
                },
            ),
            Stage::Compute => if self.step == c.steps {
                (Driver { stage: Stage::Close, ..*self }, None)
            } else if c.distributed() {
                (Driver { stage: Stage::FirstBarrier, ..*self }, Some(Action::ComputeForces))
            } else {
                (Driver { stage: Stage::Integrate, ..*self }, Some(Action::ComputeForces))
            },
            Stage::FirstBarrier => (
                Driver { stage: Stage::Transfer { next: 1 }, ..*self },
                Some(Action::Barrier),
            ),
            Stage::Transfer { next } => if !c.coordinator() {
                (
                    Driver { stage: Stage::SecondBarrier, ..*self },
                    Some(Action::ReceiveForces { from: 0 }),
                )
            } else if next < c.size {
                (
                    Driver { stage: Stage::Transfer { next: (next + 1) as u32 }, ..*self },
                    Some(Action::SendForces { to: next }),
                )
            } else {
                (Driver { stage: Stage::SecondBarrier, ..*self }, None)
            },
            Stage::SecondBarrier => (
                Driver { stage: Stage::Integrate, ..*self },
                Some(Action::Barrier),
            ),
            Stage::Integrate => (Driver { stage: Stage::Report, ..*self }, Some(Action::Integrate)),
            Stage::Report => (
                Driver { stage: Stage::Compute, step: (self.step + 1) as u64, ..*self },
                if c.reports(self.step as int) {
                    Some(Action::EmitSnapshot { step: self.step })
                } else {
                    None
                },
            ),
            Stage::Close => (
                Driver { stage: Stage::Done, ..*self },
                if c.coordinator() {
                    Some(Action::EmitFinal)
                } else {
                    None
                },
            ),
            Stage::Done => (*self, None),
        }
    }

    /// The place that follows is a place of the same script, and what has
    /// been given out there is what had been given out here and the action
    /// between the two.
    proof fn lemma_successor(&self)
        requires
            self.wf(),
            self.stage != Stage::Done,
        ensures
            self.successor().0.wf(),
            self.successor().0.config == self.config,
            self.successor().0.emitted() == match self.successor().1 {
                Some(action) => self.emitted().push(action),
                None => self.emitted(),
            },
            self.successor().1 is None ==> self.successor().0.step > self.step
                || self.successor().0.rank() < self.rank(),
    {
        let c = self.config;
        let next = self.successor().0;
        let grown = match self.successor().1 {
            Some(action) => self.emitted().push(action),
            None => self.emitted(),
        };
        match self.stage {
            Stage::FirstBarrier => {
                assert(sends(1) =~= Seq::<Action>::empty());
            },
            Stage::Transfer { next: to } => {
                if c.coordinator() && to < c.size {
                    assert(sends(to + 1) =~= sends(to as int).push(Action::SendForces { to }));
                }
            },
            _ => {},
        }
        assert(next.emitted() =~= grown);
    }

    /// The next action of the script, or `None` when the script is done.
    pub fn next(&mut self) -> (r: Option<Action>)
        ensures
            final(self).config() == old(self).config(),
            match r {
                Some(action) => {
                    &&& old(self).emitted().len() < script(old(self).config()).len()
                    &&& action == script(old(self).config())[old(self).emitted().len() as int]
                    &&& final(self).emitted() == old(self).emitted().push(action)
                },
                None => {
                    &&& old(self).emitted() == script(old(self).config())
                    &&& final(self).emitted() == old(self).emitted()
                },
            },
    {
        proof {
            use_type_invariant(&*self);
        }
        loop
            invariant
                self.wf(),
                self.config == old(self).config,
                self.emitted() == old(self).emitted(),
            decreases self.config.steps - self.step, self.rank(),
        {
            if let Stage::Done = self.stage {
                return None;
            }
            proof {
                self.lemma_successor();
            }
            let (next, action) = self.follow();
            *self = next;
            if let Some(action) = action {
                proof {
                    self.lemma_emitted_prefix();
                    let at = old(self).emitted().len() as int;
                    assert(self.emitted()[at] == script(self.config).subrange(
                        0,
                        self.emitted().len() as int,
                    )[at]);
                }
                return Some(action);
            }
        }
    }

    /// Computes the place that follows this one.
    fn follow(&self) -> (r: (Driver, Option<Action>))
        ensures
            r == self.successor(),
    {
        proof {
            use_type_invariant(self);
            if self.stage != Stage::Done {
                self.lemma_successor();
            }
        }
        let c = self.config;
        let (stage, step, action) = match self.stage {
            Stage::Open => (
                Stage::Compute,
                self.step,
                if c.rank == 0 {
                    Some(Action::EmitInitial)
                } else {
                    None
                },
            ),
            Stage::Compute => if self.step == c.steps {
                (Stage::Close, self.step, None)
            } else if c.size > 1 {
                (Stage::FirstBarrier, self.step, Some(Action::ComputeForces))
            } else {
                (Stage::Integrate, self.step, Some(Action::ComputeForces))
            },
            Stage::FirstBarrier => (Stage::Transfer { next: 1 }, self.step, Some(Action::Barrier)),
            Stage::Transfer { next } => if c.rank != 0 {
                (Stage::SecondBarrier, self.step, Some(Action::ReceiveForces { from: 0 }))
            } else if next < c.size {
                (Stage::Transfer { next: next + 1 }, self.step, Some(Action::SendForces { to: next }))
            } else {
                (Stage::SecondBarrier, self.step, None)
            },
            Stage::SecondBarrier => (Stage::Integrate, self.step, Some(Action::Barrier)),
            Stage::Integrate => (Stage::Report, self.step, Some(Action::Integrate)),
            Stage::Report => (
                Stage::Compute,
                self.step + 1,
                if c.rank == 0 && c.cadence > 0 && (self.step + 1) % c.cadence == 0 {
                    Some(Action::EmitSnapshot { step: self.step })
                } else {
                    None
                },
            ),
            Stage::Close => (
                Stage::Done,
                self.step,
                if c.rank == 0 {
                    Some(Action::EmitFinal)
                } else {
                    None
                },
            ),
            Stage::Done => (Stage::Done, self.step, None),
        };
        (Driver { config: c, step, stage }, action)
    }

    /// The state of the run, by the action that comes next.
    pub fn phase(&self) -> (r: Phase)
        ensures
            r == phase_at(self.config(), self.emitted().len() as int),
    {
        let mut probe = *self;
        match probe.next() {
            Some(Action::EmitInitial) => Phase::Initializing,
            Some(Action::EmitSnapshot { .. }) => Phase::Reporting,
            Some(Action::EmitFinal) | None => Phase::Terminated,
            Some(_) => Phase::Stepping,
        }
    }
}

} // verus!
