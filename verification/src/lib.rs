//! A line-oriented bridge between a JSON tensor protocol and a numeric
//! graph engine.
//!
//! The verified core covers the tensor codec (wire scalars to typed,
//! fixed-width buffers and back), shape-driven length reconciliation,
//! the per-request execution pipeline as an explicit state machine, and
//! the classification of failures into a fixed error taxonomy.  The host
//! performs the actual I/O, JSON (de)serialization and engine calls, and
//! drives the state machine with plain values.
//!
//! Floating-point values are carried everywhere as their IEEE 754 bit
//! patterns (`u16`/`u32`/`u64`), and all width conversions are performed
//! by verified integer arithmetic on those patterns.
use vstd::prelude::*;

pub mod decode;
pub mod encode;
pub mod errors;
pub mod fbits;
pub mod laws;
pub mod orchestrate;
pub mod protocol;
pub mod text;
pub mod wire;

verus! {

} // verus!
