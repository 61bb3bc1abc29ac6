use nbody::body::{Body, Vector};
use nbody::engine::Engine;
use nbody::error::SimError;

fn value(bits: u64) -> f64 {
    f64::from_bits(bits)
}

fn floating() -> Engine<
    impl Fn(u64, u64) -> u64 + Sync,
    impl Fn(u64, u64) -> u64 + Sync,
    impl Fn(u64, u64) -> u64 + Sync,
    impl Fn(u64, u64) -> u64 + Sync,
    impl Fn(u64) -> u64 + Sync,
> {
    Engine::new(
        |x: u64, y: u64| (value(x) + value(y)).to_bits(),
        |x: u64, y: u64| (value(x) - value(y)).to_bits(),
        |x: u64, y: u64| (value(x) * value(y)).to_bits(),
        |x: u64, y: u64| (value(x) / value(y)).to_bits(),
        |x: u64| value(x).sqrt().to_bits(),
    )
}

fn body(mass: f64, position: (f64, f64), velocity: (f64, f64)) -> Body {
    Body {
        mass: mass.to_bits(),
        position: Vector { x: position.0.to_bits(), y: position.1.to_bits() },
        velocity: Vector { x: velocity.0.to_bits(), y: velocity.1.to_bits() },
    }
}

fn close(a: f64, b: f64, tolerance: f64) -> bool {
    (a - b).abs() <= tolerance * a.abs().max(b.abs())
}

#[test]
fn force_between_earth_and_moon_points_along_the_axis() {
    let engine = floating();
    let earth = body(5.972e24, (0.0, 0.0), (0.0, 0.0));
    let moon = body(7.34767309e22, (3.844e8, 0.0), (100.0, 0.0));
    let force = engine.calculate_force(&earth, &moon).unwrap();
    let d2 = 3.844e8f64 * 3.844e8;
    let expected = 6.67430e-11 * 5.972e24 * 7.34767309e22 / d2 * 3.844e8 / d2.sqrt();
    assert_eq!(value(force.x), expected);
    assert_eq!(value(force.y), 0.0);
    assert!(close(value(force.x), 1.982e20, 1e-3));
}

#[test]
fn force_follows_the_order_of_the_operations() {
    let a = body(3.0, (1.0, 2.0), (0.0, 0.0));
    let b = body(7.0, (4.0, 6.0), (0.0, 0.0));
    let force = floating().calculate_force(&a, &b).unwrap();
    let (dx, dy) = (4.0f64 - 1.0, 6.0f64 - 2.0);
    let d2 = dx * dx + dy * dy;
    let magnitude = 6.67430e-11 * 3.0 * 7.0 / d2;
    assert_eq!(value(force.x), magnitude * dx / d2.sqrt());
    assert_eq!(value(force.y), magnitude * dy / d2.sqrt());
    assert_eq!(d2, 25.0);
    assert_eq!(value(force.x), 6.67430e-11 * 21.0 / 25.0 * 3.0 / 5.0);
}

#[test]
fn force_is_made_of_the_given_operations_only() {
    // Integer stand-ins show which operation is applied to which operands.
    let engine = Engine::new(
        |x: u64, y: u64| x.wrapping_add(y),
        |x: u64, y: u64| x.wrapping_sub(y),
        |x: u64, y: u64| x.wrapping_mul(y),
        |x: u64, y: u64| if y == 0 { 0 } else { x / y },
        |x: u64| (x as f64).sqrt() as u64,
    );
    let a = Body { mass: 2, position: Vector { x: 1, y: 1 }, velocity: Vector { x: 0, y: 0 } };
    let b = Body { mass: 5, position: Vector { x: 4, y: 5 }, velocity: Vector { x: 0, y: 0 } };
    let g = nbody::scalar::GRAVITATIONAL_CONSTANT;
    let magnitude = g.wrapping_mul(2).wrapping_mul(5) / 25;
    let force = engine.calculate_force(&a, &b).unwrap();
    assert_eq!(force, Vector { x: magnitude.wrapping_mul(3) / 5, y: magnitude.wrapping_mul(4) / 5 });
}

#[test]
fn coincident_bodies_are_rejected() {
    let engine = floating();
    let a = body(1.0, (2.5, -4.0), (0.0, 0.0));
    let b = body(9.0, (2.5, -4.0), (1.0, 1.0));
    assert_eq!(engine.calculate_force(&a, &b), Err(SimError::DegenerateConfiguration));
    assert_eq!(engine.calculate_force(&a, &a), Err(SimError::DegenerateConfiguration));
}

#[test]
fn bodies_whose_squared_distance_underflows_are_rejected() {
    let a = body(1.0, (0.0, 0.0), (0.0, 0.0));
    let b = body(1.0, (1e-200, 0.0), (0.0, 0.0));
    assert_eq!(floating().calculate_force(&a, &b), Err(SimError::DegenerateConfiguration));
}

#[test]
fn action_and_reaction_are_opposite() {
    let engine = floating();
    let pairs = [
        (body(5.972e24, (0.0, 0.0), (0.0, 0.0)), body(7.34767309e22, (3.844e8, 0.0), (100.0, 0.0))),
        (body(3.0, (1.0, 2.0), (0.0, 0.0)), body(7.0, (-4.5, 6.25), (0.0, 0.0))),
        (body(1e10, (-3.0, -7.0), (0.0, 0.0)), body(2e-3, (11.0, 0.5), (0.0, 0.0))),
    ];
    for (a, b) in pairs {
        let ab = engine.calculate_force(&a, &b).unwrap();
        let ba = engine.calculate_force(&b, &a).unwrap();
        assert!(close(value(ab.x), -value(ba.x), 1e-12));
        assert!(close(value(ab.y), -value(ba.y), 1e-12));
    }
}
