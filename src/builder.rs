//! Assembling a configured machine.
use vstd::prelude::*;

use core::marker::PhantomData;

use crate::allocators::{zero_cells, BrainfuckAllocator, DynamicAllocator};
use crate::cell::BrainfuckCell;
use crate::semantics::MachineState;
use crate::vm::VirtualMachine;

verus! {

/// The standard input handle of std, held opaquely as a default reader.
#[verifier::external_type_specification]
#[verifier::external_body]
pub struct ExStdin(std::io::Stdin);

/// The standard output handle of std, held opaquely as a default writer.
#[verifier::external_type_specification]
#[verifier::external_body]
pub struct ExStdout(std::io::Stdout);

/// Relies on `std::io::stdin`: it hands out a handle to standard input
/// (no byte is read here).
#[verifier::external_body]
fn stdin_handle() -> std::io::Stdin {
    std::io::stdin()
}

/// Relies on `std::io::stdout`: it hands out a handle to standard output
/// (nothing is written here).
#[verifier::external_body]
fn stdout_handle() -> std::io::Stdout {
    std::io::stdout()
}

/// The configuration of a machine: cell type `T`, allocation policy `A`,
/// the number of cells to preallocate, a reader and a writer.
pub struct VMBuilder<T: BrainfuckCell, A: BrainfuckAllocator, R, W> {
    initial_size: usize,
    celltype: PhantomData<T>,
    allocator: PhantomData<A>,
    reader: R,
    writer: W,
}

impl<T: BrainfuckCell, A: BrainfuckAllocator, R, W> VMBuilder<T, A, R, W> {
    /// The number of cells the machine will start with.
    pub closed spec fn spec_initial_size(&self) -> nat {
        self.initial_size as nat
    }

    /// The reader the machine will get.
    pub closed spec fn spec_reader(&self) -> R {
        self.reader
    }

    /// The writer the machine will get.
    pub closed spec fn spec_writer(&self) -> W {
        self.writer
    }

    /// The same configuration with cells of type `U`.
    pub fn with_cell_type<U: BrainfuckCell>(self) -> (r: VMBuilder<U, A, R, W>)
        ensures
            r.spec_initial_size() == self.spec_initial_size(),
            r.spec_reader() == self.spec_reader(),
            r.spec_writer() == self.spec_writer(),
    {
        VMBuilder {
            initial_size: self.initial_size,
            celltype: PhantomData,
            allocator: self.allocator,
            reader: self.reader,
            writer: self.writer,
        }
    }

    /// The same configuration with the allocation policy `U`.
    pub fn with_allocator<U: BrainfuckAllocator>(self) -> (r: VMBuilder<T, U, R, W>)
        ensures
            r.spec_initial_size() == self.spec_initial_size(),
            r.spec_reader() == self.spec_reader(),
            r.spec_writer() == self.spec_writer(),
    {
        VMBuilder {
            initial_size: self.initial_size,
            celltype: self.celltype,
            allocator: PhantomData,
            reader: self.reader,
            writer: self.writer,
        }
    }

    /// The same configuration with `num_preallocated` cells to start with.
    pub fn with_preallocated_cells(self, num_preallocated: usize) -> (r: VMBuilder<T, A, R, W>)
        ensures
            r.spec_initial_size() == num_preallocated as nat,
            r.spec_reader() == self.spec_reader(),
            r.spec_writer() == self.spec_writer(),
    {
        VMBuilder { initial_size: num_preallocated, ..self }
    }

    /// The same configuration with `reader` as the source of input.
    pub fn with_reader<U>(self, reader: U) -> (r: VMBuilder<T, A, U, W>)
        ensures
            r.spec_initial_size() == self.spec_initial_size(),
            r.spec_reader() == reader,
            r.spec_writer() == self.spec_writer(),
    {
        VMBuilder {
            initial_size: self.initial_size,
            celltype: self.celltype,
            allocator: self.allocator,
            reader,
            writer: self.writer,
        }
    }

    /// The same configuration with `writer` as the sink of output.
    pub fn with_writer<U>(self, writer: U) -> (r: VMBuilder<T, A, R, U>)
        ensures
            r.spec_initial_size() == self.spec_initial_size(),
            r.spec_reader() == self.spec_reader(),
            r.spec_writer() == writer,
    {
        VMBuilder {
            initial_size: self.initial_size,
            celltype: self.celltype,
            allocator: self.allocator,
            reader: self.reader,
            writer,
        }
    }

    /// The machine this configuration describes: the preallocated cells hold
    /// zero and the data pointer is at 0.
    pub fn build(self) -> (r: VirtualMachine<T, A, R, W>)
        ensures
            r@ == (MachineState { ptr: 0, tape: zero_cells(self.spec_initial_size()) }),
            r.spec_reader() == self.spec_reader(),
            r.spec_writer() == self.spec_writer(),
    {
        VirtualMachine::new(self.initial_size, self.reader, self.writer)
    }
}

impl VMBuilder<u8, DynamicAllocator, std::io::Stdin, std::io::Stdout> {
    /// The default configuration: byte cells, a tape that grows on demand, no
    /// preallocated cells, standard input and standard output.
    pub fn new() -> (r: VMBuilder<u8, DynamicAllocator, std::io::Stdin, std::io::Stdout>)
        ensures
            r.spec_initial_size() == 0,
    {
        VMBuilder {
            initial_size: 0,
            celltype: PhantomData,
            allocator: PhantomData,
            reader: stdin_handle(),
            writer: stdout_handle(),
        }
    }
}

impl Default for VMBuilder<u8, DynamicAllocator, std::io::Stdin, std::io::Stdout> {
    fn default() -> (r: VMBuilder<u8, DynamicAllocator, std::io::Stdin, std::io::Stdout>)
        ensures
            r.spec_initial_size() == 0,
    {
        VMBuilder::new()
    }
}

} // verus!
