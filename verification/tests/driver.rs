use nbody::driver::{Action, Config, Driver, Phase, MAX_STEPS};

fn script(rank: u32, size: u32, steps: u64, cadence: u64) -> Vec<Action> {
    let mut driver = Driver::new(Config { rank, size, steps, cadence }).unwrap();
    let mut actions = Vec::new();
    while let Some(action) = driver.next() {
        actions.push(action);
        assert!(actions.len() < 10_000);
    }
    assert_eq!(driver.next(), None);
    assert_eq!(driver.next(), None);
    actions
}

#[test]
fn a_process_alone_computes_and_integrates() {
    assert_eq!(
        script(0, 1, 2, 1),
        vec![
            Action::EmitInitial,
            Action::ComputeForces,
            Action::Integrate,
            Action::EmitSnapshot { step: 0 },
            Action::ComputeForces,
            Action::Integrate,
            Action::EmitSnapshot { step: 1 },
            Action::EmitFinal,
        ]
    );
}

#[test]
fn the_coordinator_sends_to_every_other_rank_between_two_barriers() {
    assert_eq!(
        script(0, 4, 1, 0),
        vec![
            Action::EmitInitial,
            Action::ComputeForces,
            Action::Barrier,
            Action::SendForces { to: 1 },
            Action::SendForces { to: 2 },
            Action::SendForces { to: 3 },
            Action::Barrier,
            Action::Integrate,
            Action::EmitFinal,
        ]
    );
    assert_eq!(
        script(0, 2, 2, 0),
        vec![
            Action::EmitInitial,
            Action::ComputeForces,
            Action::Barrier,
            Action::SendForces { to: 1 },
            Action::Barrier,
            Action::Integrate,
            Action::ComputeForces,
            Action::Barrier,
            Action::SendForces { to: 1 },
            Action::Barrier,
            Action::Integrate,
            Action::EmitFinal,
        ]
    );
}

#[test]
fn a_participant_receives_from_the_coordinator_and_reports_nothing() {
    for rank in 1..4 {
        assert_eq!(
            script(rank, 4, 2, 1),
            vec![
                Action::ComputeForces,
                Action::Barrier,
                Action::ReceiveForces { from: 0 },
                Action::Barrier,
                Action::Integrate,
                Action::ComputeForces,
                Action::Barrier,
                Action::ReceiveForces { from: 0 },
                Action::Barrier,
                Action::Integrate,
            ]
        );
    }
}

#[test]
fn no_steps_are_the_two_snapshots_and_nothing_else() {
    assert_eq!(script(0, 1, 0, 1), vec![Action::EmitInitial, Action::EmitFinal]);
    assert_eq!(script(0, 3, 0, 1), vec![Action::EmitInitial, Action::EmitFinal]);
    assert_eq!(script(2, 3, 0, 1), vec![]);
}

#[test]
fn snapshots_follow_the_cadence() {
    let reported = |cadence: u64| -> Vec<u64> {
        script(0, 1, 7, cadence)
            .into_iter()
            .filter_map(|a| match a {
                Action::EmitSnapshot { step } => Some(step),
                _ => None,
            })
            .collect()
    };
    assert_eq!(reported(0), Vec::<u64>::new());
    assert_eq!(reported(1), vec![0, 1, 2, 3, 4, 5, 6]);
    assert_eq!(reported(2), vec![1, 3, 5]);
    assert_eq!(reported(3), vec![2, 5]);
    assert_eq!(reported(7), vec![6]);
    assert_eq!(reported(8), Vec::<u64>::new());
}

#[test]
fn every_process_does_the_same_work_on_the_bodies() {
    let work = |rank: u32, size: u32, cadence: u64| -> Vec<Action> {
        script(rank, size, 5, cadence)
            .into_iter()
            .filter(|a| matches!(a, Action::ComputeForces | Action::Integrate))
            .collect()
    };
    let alone = work(0, 1, 0);
    assert_eq!(alone.len(), 10);
    for size in 1..5 {
        for rank in 0..size {
            for cadence in 0..3 {
                assert_eq!(work(rank, size, cadence), alone);
            }
        }
    }
}

#[test]
fn a_configuration_out_of_bounds_gets_no_driver() {
    assert!(Driver::new(Config { rank: 0, size: 0, steps: 1, cadence: 1 }).is_none());
    assert!(Driver::new(Config { rank: 2, size: 2, steps: 1, cadence: 1 }).is_none());
    assert!(Driver::new(Config { rank: 3, size: 2, steps: 1, cadence: 1 }).is_none());
    assert!(Driver::new(Config { rank: 0, size: 1, steps: MAX_STEPS + 1, cadence: 1 }).is_none());
    assert!(Driver::new(Config { rank: 0, size: 1, steps: MAX_STEPS, cadence: 1 }).is_some());
    assert!(Driver::new(Config { rank: 1, size: 2, steps: 0, cadence: 0 }).is_some());
    assert_eq!(MAX_STEPS, 1_000_000_000_000);
}

#[test]
fn the_phase_is_told_by_the_action_that_comes_next() {
    let mut driver = Driver::new(Config { rank: 0, size: 2, steps: 1, cadence: 1 }).unwrap();
    let mut seen = Vec::new();
    loop {
        let phase = driver.phase();
        match driver.next() {
            Some(action) => seen.push((phase, action)),
            None => {
                assert_eq!(phase, Phase::Terminated);
                break;
            }
        }
    }
    assert_eq!(
        seen,
        vec![
            (Phase::Initializing, Action::EmitInitial),
            (Phase::Stepping, Action::ComputeForces),
            (Phase::Stepping, Action::Barrier),
            (Phase::Stepping, Action::SendForces { to: 1 }),
            (Phase::Stepping, Action::Barrier),
            (Phase::Stepping, Action::Integrate),
            (Phase::Reporting, Action::EmitSnapshot { step: 0 }),
            (Phase::Terminated, Action::EmitFinal),
        ]
    );
    let participant = Driver::new(Config { rank: 1, size: 2, steps: 0, cadence: 1 }).unwrap();
    assert_eq!(participant.phase(), Phase::Terminated);
    let participant = Driver::new(Config { rank: 1, size: 2, steps: 3, cadence: 1 }).unwrap();
    assert_eq!(participant.phase(), Phase::Stepping);
}

#[test]
fn a_long_run_is_handed_out_without_overflow() {
    let mut driver =
        Driver::new(Config { rank: 0, size: u32::MAX, steps: MAX_STEPS, cadence: u64::MAX })
            .unwrap();
    assert_eq!(driver.next(), Some(Action::EmitInitial));
    assert_eq!(driver.next(), Some(Action::ComputeForces));
    assert_eq!(driver.next(), Some(Action::Barrier));
    for to in 1..1000 {
        assert_eq!(driver.next(), Some(Action::SendForces { to }));
    }
}
