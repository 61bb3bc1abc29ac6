//! Pairwise gravitational simulation of point masses, for one process or
//! for several that share the work of a run.
//!
//! Every real number in this crate is an IEEE 754 binary64 value held as its
//! 64-bit pattern. The crate performs no floating-point arithmetic of its
//! own: an [`engine::Engine`] is built from the five operations it needs,
//! and every contract states which operations are applied to which
//! operands, in which order.
//!
//! - [`kernel`], [`reducer`], [`integrator`] and [`simulation`] compute
//!   forces and move bodies.
//! - [`wire`] encodes and decodes the force array that the coordinator
//!   sends to the other processes.
//! - [`driver`] tells a process what to do next; the process itself does
//!   the waiting, the sending and the printing.
//! - [`determinism`] and [`replay`] prove that every process of a run ends
//!   with the same bodies.

pub mod body;
pub mod determinism;
pub mod driver;
pub mod engine;
pub mod error;
pub mod integrator;
pub mod kernel;
pub mod reducer;
pub mod replay;
pub mod scalar;
pub mod simulation;
pub mod wire;
