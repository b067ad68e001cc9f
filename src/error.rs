use vstd::prelude::*;

verus! {

/// The I/O error of std, carried opaquely when a reader or writer fails.
#[verifier::external_type_specification]
#[verifier::external_body]
pub struct ExIoError(std::io::Error);

/// An access past the end of a tape that may not grow.
#[derive(Clone, Copy, Debug, PartialEq, Eq, Structural)]
pub struct OutOfBoundsAccess {
    /// The number of cells the tape had.
    pub capacity: usize,
    /// The number of cells the access needed (the accessed index plus one).
    pub access: usize,
}

/// A memory error raised by an allocation policy.
#[derive(Clone, Copy, Debug, PartialEq, Eq, Structural)]
pub enum VMMemoryError {
    /// The tape was too short for the access.
    OutOfBounds(OutOfBoundsAccess),
}

/// Which half of a bracket pair could not be found.
#[derive(Clone, Copy, Debug, PartialEq, Eq, Structural)]
pub enum MissingKind {
    /// No opening bracket matches a closing one.
    JumpFwd,
    /// No closing bracket matches an opening one.
    JumpBack,
}

/// A fatal error that ends a run.
#[derive(Debug)]
pub enum BrainfuckExecutionError {
    /// An error of no known kind.
    UnknownError,
    /// The reader or the writer failed.
    IOError(std::io::Error),
    /// A loop instruction has no matching counterpart.
    JumpMismatchError(MissingKind),
    /// The allocation policy refused an access.
    MemoryError(VMMemoryError),
    /// The data pointer would pass the largest index.
    DataPointerOverflow,
    /// The data pointer would pass below zero.
    DataPointerUnderflow,
}

impl From<VMMemoryError> for BrainfuckExecutionError {
    fn from(e: VMMemoryError) -> (r: BrainfuckExecutionError) {
        BrainfuckExecutionError::MemoryError(e)
    }
}

impl vstd::std_specs::convert::FromSpecImpl<VMMemoryError> for BrainfuckExecutionError {
    open spec fn obeys_from_spec() -> bool {
        true
    }

    open spec fn from_spec(e: VMMemoryError) -> BrainfuckExecutionError {
        BrainfuckExecutionError::MemoryError(e)
    }
}

impl From<()> for BrainfuckExecutionError {
    fn from(e: ()) -> (r: BrainfuckExecutionError) {
        BrainfuckExecutionError::UnknownError
    }
}

impl vstd::std_specs::convert::FromSpecImpl<()> for BrainfuckExecutionError {
    open spec fn obeys_from_spec() -> bool {
        true
    }

    open spec fn from_spec(e: ()) -> BrainfuckExecutionError {
        BrainfuckExecutionError::UnknownError
    }
}

impl From<std::io::Error> for BrainfuckExecutionError {
    fn from(e: std::io::Error) -> (r: BrainfuckExecutionError) {
        BrainfuckExecutionError::IOError(e)
    }
}

impl vstd::std_specs::convert::FromSpecImpl<std::io::Error> for BrainfuckExecutionError {
    open spec fn obeys_from_spec() -> bool {
        true
    }

    open spec fn from_spec(e: std::io::Error) -> BrainfuckExecutionError {
        BrainfuckExecutionError::IOError(e)
    }
}

} // verus!
