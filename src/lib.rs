//! Transient temperature simulation of electronic systems.
//!
//! A system with `units` processing elements is modeled by an equivalent
//! thermal RC circuit with `nodes` thermal nodes, and the temperature of
//! `outputs` spots of interest is reported. The numerical engine reduces the
//! circuit once to two propagation operators and then advances a persistent
//! state through a power trace that arrives in chunks of any size.
//!
//! This crate holds the parts of the engine whose correctness is a matter of
//! structure rather than of arithmetic:
//!
//! * [`error`]: the error type;
//! * [`shape`]: the dimensions of a circuit and the validation of chunks;
//! * [`state`]: the history buffer that carries the state across calls and
//!   hands out disjoint blocks for the step-by-step recurrence;
//! * [`circuit`]: the circuit models built from HotSpot and 3D-ICE;
//! * [`fixture`]: locating data files.
//!
//! The buffer is generic in its element type, so that it holds the
//! double-precision node temperatures of the engine as well as any other
//! value.

pub mod error;
pub mod shape;
pub mod state;
pub mod circuit;
pub mod fixture;
