//! A byte-tape machine: source text is resolved into instructions whose loop
//! brackets carry absolute jump targets, and a processor runs them on a tape.

pub mod laws;
pub mod opcodes;
pub mod processor;
pub mod semantics;
pub mod source;
pub mod syntax;
pub mod translate;

pub use opcodes::{Error, Opcodes, OutputMode, Stop};
pub use processor::{Processor, RunReport};
