//! The arithmetic that a simulation runs on.

use vstd::prelude::*;

verus! {

/// The five binary64 operations of the simulation, each taking and giving
/// bit patterns. The contracts of this crate say of every result which
/// operations produced it from which operands; they claim nothing of what
/// an operation returns.
pub struct Engine<A, S, M, D, R> {
    pub add: A,
    pub sub: S,
    pub mul: M,
    pub div: D,
    pub sqrt: R,
}

impl<A, S, M, D, R> Engine<A, S, M, D, R> where
    A: Fn(u64, u64) -> u64,
    S: Fn(u64, u64) -> u64,
    M: Fn(u64, u64) -> u64,
    D: Fn(u64, u64) -> u64,
    R: Fn(u64) -> u64,
 {
    /// Every operation accepts every operand.
    pub open spec fn total(&self) -> bool {
        &&& forall|x: u64, y: u64| self.add.requires((x, y))
        &&& forall|x: u64, y: u64| self.sub.requires((x, y))
        &&& forall|x: u64, y: u64| self.mul.requires((x, y))
        &&& forall|x: u64, y: u64| self.div.requires((x, y))
        &&& forall|x: u64| self.sqrt.requires((x,))
    }

    /// `r` is a result of `x + y`.
    #[verifier::inline]
    pub open spec fn sum(&self, x: u64, y: u64, r: u64) -> bool {
        self.add.ensures((x, y), r)
    }

    /// `r` is a result of `x - y`.
    #[verifier::inline]
    pub open spec fn difference(&self, x: u64, y: u64, r: u64) -> bool {
        self.sub.ensures((x, y), r)
    }

    /// `r` is a result of `x * y`.
    #[verifier::inline]
    pub open spec fn product(&self, x: u64, y: u64, r: u64) -> bool {
        self.mul.ensures((x, y), r)
    }

    /// `r` is a result of `x / y`.
    #[verifier::inline]
    pub open spec fn quotient(&self, x: u64, y: u64, r: u64) -> bool {
        self.div.ensures((x, y), r)
    }

    /// `r` is a result of the square root of `x`.
    #[verifier::inline]
    pub open spec fn root(&self, x: u64, r: u64) -> bool {
        self.sqrt.ensures((x,), r)
    }

    /// No operation has two different results on the same operands.
    pub open spec fn deterministic(&self) -> bool {
        &&& forall|x: u64, y: u64, r: u64, s: u64|
            self.sum(x, y, r) && self.sum(x, y, s) ==> r == s
        &&& forall|x: u64, y: u64, r: u64, s: u64|
            self.difference(x, y, r) && self.difference(x, y, s) ==> r == s
        &&& forall|x: u64, y: u64, r: u64, s: u64|
            self.product(x, y, r) && self.product(x, y, s) ==> r == s
        &&& forall|x: u64, y: u64, r: u64, s: u64|
            self.quotient(x, y, r) && self.quotient(x, y, s) ==> r == s
        &&& forall|x: u64, r: u64, s: u64| self.root(x, r) && self.root(x, s) ==> r == s
    }

    /// An engine that computes with the given operations.
    pub fn new(add: A, sub: S, mul: M, div: D, sqrt: R) -> (engine: Self)
        ensures
            engine.add == add,
            engine.sub == sub,
            engine.mul == mul,
            engine.div == div,
            engine.sqrt == sqrt,
    {
        Engine { add, sub, mul, div, sqrt }
    }
}

} // verus!
