//! An interpreter for a minimal tape-machine language of eight one-character
//! instructions, with verified decoding, allocation policies and execution.
use vstd::prelude::*;

pub mod allocators;
pub mod builder;
pub mod cell;
pub mod error;
pub mod instruction;
pub mod program;
pub mod semantics;
pub mod vm;

pub use allocators::{BoundsCheckingStaticAllocator, BrainfuckAllocator, DynamicAllocator, StaticAllocator};
pub use builder::VMBuilder;
pub use cell::BrainfuckCell;
pub use error::{BrainfuckExecutionError, MissingKind, OutOfBoundsAccess, VMMemoryError};
pub use instruction::Instruction;
pub use program::Program;
pub use semantics::RunStatus;
pub use vm::{run_string, RunReport, Step, VirtualMachine};

verus! {

} // verus!
