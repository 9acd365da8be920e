//! A random program generator and execution harness for OSEK-style kernels.
//!
//! The library holds the verified logic: the system-call vocabulary and its
//! wire identifiers, the program model, the context-sensitive call
//! factories, the stateful generator, the target-memory layout, the C
//! rendering of programs, the decisions of the debugger rendezvous protocol,
//! the parsing of build-script results, and the bookkeeping of the fuzzing
//! loop.
use vstd::prelude::*;

pub mod driver;
pub mod exec;
pub mod gen;
pub mod model;
pub mod primitives;
pub mod prog;
pub mod render;
mod rng;
pub mod script;
pub mod wire;

pub use driver::{Config, State, Stats};

verus! {

} // verus!
