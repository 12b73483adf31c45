//! Core of an interpreter for a minimal eight-instruction tape-machine
//! language: a validated instruction sequence, a growable byte tape with a
//! single pointer, a precomputed bracket-matching index, and a step-bounded
//! execution engine. Rendering, file loading and argument handling are left
//! to the host.

pub mod brackets;
pub mod engine;
pub mod machine;
pub mod memory;
pub mod op;
pub mod program;

pub use brackets::BracketIndex;
pub use brackets::BuildError;
pub use engine::Engine;
pub use engine::HaltReason;
pub use memory::FatalError;
pub use memory::Memory;
pub use op::Op;
pub use program::OpList;
