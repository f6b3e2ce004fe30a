//! An interpreter for the eight-instruction tape language: source bytes are
//! decoded into instructions, and an execution engine runs them on a tape of
//! 30000 byte cells.
//!
//! Every executable function is stated against a mathematical model of the
//! machine (`machine::Machine`) and proved to follow it.

pub mod error;
pub mod instruction;
pub mod laws;
pub mod machine;
pub mod state;

pub use error::InterpreterError;
pub use instruction::Instruction;
pub use machine::MEMSIZE;
pub use state::{get_instructions, Instructions, State};
