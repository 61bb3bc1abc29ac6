use nbody::body::{Body, Vector};
use nbody::driver::{Action, Config, Driver};
use nbody::engine::Engine;
use nbody::wire::{adopt_forces, encode_forces};

#[test]
fn processes_that_follow_their_scripts_end_with_the_same_bodies() {
    let value = |bits: u64| f64::from_bits(bits);
    let engine = Engine::new(
        |x: u64, y: u64| (value(x) + value(y)).to_bits(),
        |x: u64, y: u64| (value(x) - value(y)).to_bits(),
        |x: u64, y: u64| (value(x) * value(y)).to_bits(),
        |x: u64, y: u64| (value(x) / value(y)).to_bits(),
        |x: u64| value(x).sqrt().to_bits(),
    );
    let body = |mass: f64, x: f64, y: f64, vx: f64, vy: f64| Body {
        mass: mass.to_bits(),
        position: Vector { x: x.to_bits(), y: y.to_bits() },
        velocity: Vector { x: vx.to_bits(), y: vy.to_bits() },
    };
    let start = vec![
        body(5.972e24, 0.0, 0.0, 0.0, 0.0),
        body(7.34767309e22, 3.844e8, 0.0, 100.0, 0.0),
        body(1.0e3, -4.2e7, 1.0e6, 0.0, -3.0e3),
    ];
    let steps = 20;
    let mut alone = start.clone();
    assert_eq!(engine.run(&mut alone, steps), Ok(()));

    for size in 1..4u32 {
        // All processes of the run in one thread: a mailbox for each rank
        // stands for the transfers, and the barriers need no waiting since
        // the processes are advanced in rank order, action by action.
        let mut drivers: Vec<Driver> = (0..size)
            .map(|rank| Driver::new(Config { rank, size, steps, cadence: 0 }).unwrap())
            .collect();
        let mut bodies = vec![start.clone(); size as usize];
        let mut forces = vec![Vec::new(); size as usize];
        let mut mailbox: Vec<Option<Vec<u8>>> = vec![None; size as usize];
        let mut running = true;
        while running {
            running = false;
            for rank in 0..size as usize {
                // Run this process up to and including its next barrier.
                while let Some(action) = drivers[rank].next() {
                    running = true;
                    match action {
                        Action::ComputeForces => {
                            forces[rank] = engine.reduce_forces(&bodies[rank]).unwrap();
                            if rank != 0 {
                                // What a participant computes it discards.
                                forces[rank].clear();
                            }
                        }
                        Action::SendForces { to } => {
                            mailbox[to as usize] = Some(encode_forces(&forces[rank]).unwrap());
                        }
                        Action::ReceiveForces { from } => {
                            assert_eq!(from, 0);
                            let payload = mailbox[rank].take();
                            forces[rank] =
                                adopt_forces(payload.as_deref(), bodies[rank].len()).unwrap();
                        }
                        Action::Integrate => {
                            assert_eq!(engine.integrate(&mut bodies[rank], &forces[rank]), Ok(()));
                        }
                        Action::Barrier => break,
                        _ => {}
                    }
                }
            }
        }
        for rank in 0..size as usize {
            assert_eq!(bodies[rank], alone, "rank {rank} of {size}");
        }
    }
}
