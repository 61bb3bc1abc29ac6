//! Point masses and the forces that act on them.

use vstd::prelude::*;

verus! {

/// A vector in the plane, by its two components.
#[derive(Clone, Copy, Debug, PartialEq, Eq, Structural)]
pub struct Vector {
    pub x: u64,
    pub y: u64,
}

/// The net force on one body during one step.
pub type ForceVector = Vector;

/// A point mass. Its index in the body set identifies it for the whole run.
#[derive(Clone, Copy, Debug, PartialEq, Eq, Structural)]
pub struct Body {
    pub mass: u64,
    pub position: Vector,
    pub velocity: Vector,
}

} // verus!
