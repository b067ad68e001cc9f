//! The execution engine.
use vstd::prelude::*;

use core::marker::PhantomData;

use crate::allocators::{cell_values, zero_cells, AllocationPolicy, BrainfuckAllocator, DynamicAllocator};
use crate::cell::BrainfuckCell;
use crate::error::{BrainfuckExecutionError, MissingKind};
use crate::instruction::{decode_source, Instruction};
use crate::program::Program;
use crate::semantics::{
    cell_at, char_codes, store, CellUpdate, find_close, find_open, is_scalar, run_from, step, write_cell,
    MachineState, RunEffect, RunStatus, StepEffect,
};

verus! {

/// A closing bracket found scanning forward from `k` lies at or after `k`.
proof fn lemma_find_close_bounds(prog: Seq<Instruction>, k: nat, depth: nat)
    ensures
        find_close(prog, k, depth) matches Some(j) ==> k <= j < prog.len(),
    decreases prog.len() - k,
{
    if k < prog.len() {
        match prog[k as int] {
            Instruction::JumpFwd => lemma_find_close_bounds(prog, k + 1, depth + 1),
            Instruction::JumpBack => {
                if depth > 1 {
                    lemma_find_close_bounds(prog, k + 1, (depth - 1) as nat);
                }
            },
            _ => lemma_find_close_bounds(prog, k + 1, depth),
        }
    }
}

/// The index of the closing bracket that matches an opening bracket just
/// before `from`, scanning forward.
fn scan_forward(instrs: &Vec<Instruction>, from: usize) -> (r: Option<usize>)
    requires
        0 < from <= instrs@.len(),
    ensures
        r == (match find_close(instrs@, from as nat, 1) {
            Some(j) => Some(j as usize),
            None => None::<usize>,
        }),
        r matches Some(j) ==> from <= j < instrs@.len(),
{
    let mut k: usize = from;
    let mut depth: usize = 1;
    let n: usize = instrs.len();
    while k < n
        invariant
            n == instrs@.len(),
            0 < from <= k <= instrs@.len(),
            1 <= depth <= k - from + 1,
            find_close(instrs@, from as nat, 1) == find_close(instrs@, k as nat, depth as nat),
        decreases instrs@.len() - k,
    {
        match instrs[k] {
            Instruction::JumpFwd => {
                depth = depth + 1;
            },
            Instruction::JumpBack => {
                if depth == 1 {
                    proof {
                        lemma_find_close_bounds(instrs@, from as nat, 1);
                    }
                    return Some(k);
                }
                depth = depth - 1;
            },
            _ => {},
        }
        k = k + 1;
    }
    None
}


/// An opening bracket found scanning backward from `k` lies at or before `k`.
proof fn lemma_find_open_bounds(prog: Seq<Instruction>, k: int, depth: nat)
    ensures
        find_open(prog, k, depth) matches Some(j) ==> 0 <= j <= k && j < prog.len(),
    decreases k + 1,
{
    if 0 <= k < prog.len() {
        match prog[k] {
            Instruction::JumpBack => lemma_find_open_bounds(prog, k - 1, depth + 1),
            Instruction::JumpFwd => {
                if depth > 1 {
                    lemma_find_open_bounds(prog, k - 1, (depth - 1) as nat);
                }
            },
            _ => lemma_find_open_bounds(prog, k - 1, depth),
        }
    }
}

/// The index of the opening bracket that matches a closing bracket at
/// `upto`, scanning backward from `upto - 1` down to index 0.
fn scan_backward(instrs: &Vec<Instruction>, upto: usize) -> (r: Option<usize>)
    requires
        0 < upto < instrs@.len(),
    ensures
        r == (match find_open(instrs@, upto - 1, 1) {
            Some(j) => Some(j as usize),
            None => None::<usize>,
        }),
        r matches Some(j) ==> j < upto,
{
    // `k` is the number of indices left to examine: the next one is `k - 1`.
    let mut k: usize = upto;
    let mut depth: usize = 1;
    let n: usize = instrs.len();
    while k > 0
        invariant
            n == instrs@.len(),
            0 < upto < instrs@.len(),
            k <= upto,
            1 <= depth <= upto - k + 1,
            find_open(instrs@, upto - 1, 1) == find_open(instrs@, k - 1, depth as nat),
        decreases k,
    {
        let idx = k - 1;
        match instrs[idx] {
            Instruction::JumpBack => {
                depth = depth + 1;
            },
            Instruction::JumpFwd => {
                if depth == 1 {
                    proof {
                        lemma_find_open_bounds(instrs@, upto - 1, 1);
                    }
                    return Some(idx);
                }
                depth = depth - 1;
            },
            _ => {},
        }
        k = idx;
    }
    None
}

/// Relies on `char::from_u32`: it gives `Some` exactly for a Unicode scalar
/// value, and then the character with that code point.
#[verifier::external_body]
fn char_from_u32(v: u32) -> (r: Option<char>)
    ensures
        r is Some <==> is_scalar(v as nat),
        r matches Some(c) ==> c as u32 == v,
{
    char::from_u32(v)
}

/// The code point of an optional character.
pub open spec fn char_code(o: Option<char>) -> Option<nat> {
    match o {
        Some(c) => Some((c as u32) as nat),
        None => None,
    }
}

/// The outcome of one executed instruction: where to go next, and the
/// character to write, if any.
pub struct Step {
    pub next: usize,
    pub output: Option<char>,
}

/// Whether an executed step agrees with its meaning `effect`, from state
/// `before` to state `after`.
pub open spec fn step_agrees(
    r: Result<Step, BrainfuckExecutionError>,
    effect: Result<StepEffect, BrainfuckExecutionError>,
    before: MachineState,
    after: MachineState,
) -> bool {
    match effect {
        Ok(eff) => match r {
            Ok(st) => after == eff.state && st.next as nat == eff.next && char_code(st.output) == eff.output,
            Err(_) => false,
        },
        Err(e) => r == Err::<Step, BrainfuckExecutionError>(e) && after == before,
    }
}

/// A machine: a tape of cells of type `T` grown or checked by the policy `A`,
/// a data pointer, and the reader and writer that its I/O goes to.
pub struct VirtualMachine<T: BrainfuckCell, A: BrainfuckAllocator, R, W> {
    data_ptr: usize,
    data: Vec<T>,
    alloc: PhantomData<A>,
    /// The source of the bytes that `Input` reads.
    pub reader: R,
    /// The sink of the characters that `Output` writes.
    pub writer: W,
}

impl<T: BrainfuckCell, A: BrainfuckAllocator, R, W> View for VirtualMachine<T, A, R, W> {
    type V = MachineState;

    closed spec fn view(&self) -> MachineState {
        MachineState { ptr: self.data_ptr as nat, tape: cell_values(self.data@) }
    }
}

impl<T: BrainfuckCell, A: BrainfuckAllocator, R, W> VirtualMachine<T, A, R, W> {
    /// The reader the machine holds.
    pub closed spec fn spec_reader(&self) -> R {
        self.reader
    }

    /// The writer the machine holds.
    pub closed spec fn spec_writer(&self) -> W {
        self.writer
    }

    /// A machine with `init_size` zero cells and the data pointer at 0.
    pub fn new(init_size: usize, reader: R, writer: W) -> (r: Self)
        ensures
            r@ == (MachineState { ptr: 0, tape: zero_cells(init_size as nat) }),
            r.spec_reader() == reader,
            r.spec_writer() == writer,
    {
        let mut data: Vec<T> = Vec::new();
        while data.len() < init_size
            invariant
                data@.len() <= init_size,
                cell_values(data@) == zero_cells(data@.len()),
            decreases init_size - data@.len(),
        {
            let z = T::zero();
            let ghost before = data@;
            data.push(z);
            proof {
                assert(cell_values(data@) =~= cell_values(before).push(z.value()));
                assert(cell_values(data@) =~= zero_cells(data@.len()));
            }
        }
        VirtualMachine { data_ptr: 0, data, alloc: PhantomData, reader, writer }
    }

    /// The data pointer.
    pub fn data_ptr(&self) -> (r: usize)
        ensures
            r as nat == self@.ptr,
    {
        self.data_ptr
    }

    /// The cells of the tape.
    pub fn memory(&self) -> (r: &Vec<T>)
        ensures
            cell_values(r@) == self@.tape,
    {
        &self.data
    }

    /// The current cell; a cell past the tape's end reads as zero.
    fn current_cell(&self) -> (r: T)
        ensures
            r.value() == cell_at(self@.tape, self@.ptr),
    {
        if self.data_ptr < self.data.len() {
            self.data[self.data_ptr]
        } else {
            T::zero()
        }
    }

    /// Writes `v` to the current cell; a write past the tape's end is dropped.
    fn write_current(&mut self, v: T)
        ensures
            final(self)@ == (MachineState { ptr: old(self)@.ptr, tape: write_cell(old(self)@.tape, old(self)@.ptr, v.value()) }),
            final(self).reader == old(self).reader,
            final(self).writer == old(self).writer,
    {
        if self.data_ptr < self.data.len() {
            let ghost before = self.data@;
            self.data.set(self.data_ptr, v);
            proof {
                assert(cell_values(self.data@) =~= cell_values(before).update(self.data_ptr as int, v.value()));
            }
        }
    }

    /// Asks the policy for room at the current cell, then applies `u` to it.
    /// A write past the tape's end, which only the unchecked policy lets
    /// through, is dropped.
    fn store(&mut self, u: CellUpdate) -> (r: Result<(), BrainfuckExecutionError>)
        ensures
            match store(A::policy(), T::modulus(), old(self)@, u, 0) {
                Ok(eff) => r is Ok && final(self)@ == eff.state,
                Err(e) => r == Err::<(), BrainfuckExecutionError>(e) && final(self)@ == old(self)@,
            },
            final(self).spec_reader() == old(self).spec_reader(),
            final(self).spec_writer() == old(self).spec_writer(),
    {
        if self.data_ptr == usize::MAX {
            return Err(BrainfuckExecutionError::DataPointerOverflow);
        }
        let ptr = self.data_ptr;
        match A::ensure_capacity(&mut self.data, ptr + 1) {
            Err(e) => {
                return Err(BrainfuckExecutionError::MemoryError(e));
            },
            Ok(()) => {},
        }
        let c = self.current_cell();
        let nv = match u {
            CellUpdate::Incr => c.wrapping_incr(),
            CellUpdate::Decr => c.wrapping_decr(),
            CellUpdate::Write(b) => T::from_byte(b),
        };
        self.write_current(nv);
        Ok(())
    }

    /// Executes the instruction at `ip` of `program` and tells where to go
    /// next. `input` is what one read of the reader gave (`None` when it gave
    /// no byte); only an `Input` instruction looks at it. On an error the
    /// machine is left as it was. A write to the cell at the largest index
    /// fails with `DataPointerOverflow`, since a tape cannot cover it.
    pub fn exec(&mut self, program: &Program, ip: usize, input: Option<u8>) -> (r: Result<Step, BrainfuckExecutionError>)
        requires
            ip < program@.len(),
        ensures
            step_agrees(r, step(A::policy(), T::modulus(), old(self)@, program@, ip as nat, input), old(self)@, final(self)@),
            final(self).spec_reader() == old(self).spec_reader(),
            final(self).spec_writer() == old(self).spec_writer(),
    {
        let instrs = program.instructions();
        let n: usize = instrs.len();
        assert(ip + 1 <= n);
        match instrs[ip] {
            Instruction::IncrDP => {
                if self.data_ptr == usize::MAX {
                    return Err(BrainfuckExecutionError::DataPointerOverflow);
                }
                self.data_ptr = self.data_ptr + 1;
                Ok(Step { next: ip + 1, output: None })
            },
            Instruction::DecrDP => {
                if self.data_ptr == 0 {
                    return Err(BrainfuckExecutionError::DataPointerUnderflow);
                }
                self.data_ptr = self.data_ptr - 1;
                Ok(Step { next: ip + 1, output: None })
            },
            Instruction::Incr => {
                match self.store(CellUpdate::Incr) {
                    Ok(()) => Ok(Step { next: ip + 1, output: None }),
                    Err(e) => Err(e),
                }
            },
            Instruction::Decr => {
                match self.store(CellUpdate::Decr) {
                    Ok(()) => Ok(Step { next: ip + 1, output: None }),
                    Err(e) => Err(e),
                }
            },
            Instruction::Output => {
                let val = self.current_cell();
                let c = match val.to_u32() {
                    Some(code) => match char_from_u32(code) {
                        Some(c) => c,
                        None => '\u{FFFD}',
                    },
                    None => '\u{FFFD}',
                };
                Ok(Step { next: ip + 1, output: Some(c) })
            },
            Instruction::Input => {
                match input {
                    Some(b) => match self.store(CellUpdate::Write(b)) {
                        Ok(()) => Ok(Step { next: ip + 1, output: None }),
                        Err(e) => Err(e),
                    },
                    None => Ok(Step { next: ip + 1, output: None }),
                }
            },
            Instruction::JumpFwd => {
                if !self.current_cell().is_zero() {
                    return Ok(Step { next: ip + 1, output: None });
                }
                proof {
                    lemma_find_close_bounds(program@, (ip + 1) as nat, 1);
                }
                match scan_forward(instrs, ip + 1) {
                    Some(j) => Ok(Step { next: j, output: None }),
                    None => Err(BrainfuckExecutionError::JumpMismatchError(MissingKind::JumpBack)),
                }
            },
            Instruction::JumpBack => {
                if self.current_cell().is_zero() {
                    return Ok(Step { next: ip + 1, output: None });
                }
                if ip == 0 {
                    return Err(BrainfuckExecutionError::JumpMismatchError(MissingKind::JumpFwd));
                }
                proof {
                    lemma_find_open_bounds(program@, ip - 1, 1);
                }
                match scan_backward(instrs, ip) {
                    Some(j) => Ok(Step { next: j, output: None }),
                    None => Err(BrainfuckExecutionError::JumpMismatchError(MissingKind::JumpFwd)),
                }
            },
        }
    }

    /// Puts the data pointer back at 0 for a new run; the tape is kept.
    pub fn begin_run(&mut self)
        ensures
            final(self)@ == (MachineState { ptr: 0, tape: old(self)@.tape }),
            final(self).spec_reader() == old(self).spec_reader(),
            final(self).spec_writer() == old(self).spec_writer(),
    {
        self.data_ptr = 0;
    }

    /// Sets every cell of the tape to zero. The tape keeps its length and the
    /// data pointer stays where it is.
    pub fn reset_memory(&mut self)
        ensures
            final(self)@ == (MachineState { ptr: old(self)@.ptr, tape: zero_cells(old(self)@.tape.len()) }),
            final(self).spec_reader() == old(self).spec_reader(),
            final(self).spec_writer() == old(self).spec_writer(),
    {
        let n: usize = self.data.len();
        let mut i: usize = 0;
        while i < n
            invariant
                n == self.data@.len(),
                n == old(self)@.tape.len(),
                i <= n,
                self.data_ptr == old(self).data_ptr,
                self.reader == old(self).reader,
                self.writer == old(self).writer,
                forall|k: int| 0 <= k < i ==> (#[trigger] self.data@[k]).value() == 0,
            decreases n - i,
        {
            self.data.set(i, T::zero());
            i = i + 1;
        }
        proof {
            assert(cell_values(self.data@) =~= zero_cells(n as nat));
        }
    }

    /// Runs `program` from its first instruction for at most `max_steps`
    /// steps. Input bytes come from `input` in order; once it is used up, a
    /// read gives no byte and leaves the cell as it was. The data pointer is
    /// set to 0 first, but the tape is kept from earlier runs. An empty
    /// program finishes at once and leaves the machine untouched.
    pub fn run_program(&mut self, program: &Program, input: &[u8], max_steps: usize) -> (r: RunReport)
        ensures
            program@.len() == 0 ==> final(self)@ == old(self)@ && r.status is Finished && r.output@.len() == 0 && r.consumed == 0,
            program@.len() > 0 ==> run_agrees(
                r,
                final(self)@,
                run_from(A::policy(), T::modulus(), MachineState { ptr: 0, tape: old(self)@.tape }, program@, 0, input@, max_steps as nat),
            ),
            final(self).spec_reader() == old(self).spec_reader(),
            final(self).spec_writer() == old(self).spec_writer(),
    {
        let mut output: Vec<char> = Vec::new();
        if program.is_empty() {
            return RunReport { status: RunStatus::Finished, output, consumed: 0 };
        }
        self.begin_run();
        let instrs = program.instructions();
        let n: usize = instrs.len();
        let mut ip: usize = 0;
        let mut fuel: usize = max_steps;
        let mut pos: usize = 0;
        let ghost total = run_from(A::policy(), T::modulus(), self@, program@, 0, input@, max_steps as nat);
        proof {
            assert(self@ == MachineState { ptr: 0, tape: old(self)@.tape });
            assert(input@.skip(0) =~= input@);
            assert(char_codes(output@) =~= Seq::<nat>::empty());
        }
        loop
            invariant
                0 < n == program@.len(),
                instrs@ == program@,
                pos <= input@.len(),
                total == run_from(A::policy(), T::modulus(), MachineState { ptr: 0, tape: old(self)@.tape }, program@, 0, input@, max_steps as nat),
                total == prepend(char_codes(output@), pos as nat, run_from(A::policy(), T::modulus(), self@, program@, ip as nat, input@.skip(pos as int), fuel as nat)),
                self.reader == old(self).reader,
                self.writer == old(self).writer,
            decreases fuel,
        {
            if ip >= n {
                proof {
                    assert(char_codes(output@) + Seq::<nat>::empty() =~= char_codes(output@));
                }
                return RunReport { status: RunStatus::Finished, output, consumed: pos };
            }
            if fuel == 0 {
                proof {
                    assert(char_codes(output@) + Seq::<nat>::empty() =~= char_codes(output@));
                }
                return RunReport { status: RunStatus::StepLimitReached, output, consumed: pos };
            }
            let byte: Option<u8> = match instrs[ip] {
                Instruction::Input => {
                    if pos < input.len() {
                        Some(input[pos])
                    } else {
                        None
                    }
                },
                _ => None,
            };
            let used: usize = if byte.is_some() {
                1
            } else {
                0
            };
            let ghost rest_input = input@.skip(pos as int);
            proof {
                assert(byte == crate::semantics::input_for(program@, ip as nat, rest_input));
                assert(rest_input.skip(used as int) =~= input@.skip(pos + used));
            }
            let ghost before_out = char_codes(output@);
            match self.exec(program, ip, byte) {
                Err(e) => {
                    proof {
                        assert(char_codes(output@) + Seq::<nat>::empty() =~= char_codes(output@));
                    }
                    return RunReport { status: RunStatus::Failed(e), output, consumed: pos + used };
                },
                Ok(st) => {
                    match st.output {
                        Some(c) => {
                            output.push(c);
                        },
                        None => {},
                    }
                    proof {
                        assert(char_codes(output@) =~= before_out + crate::semantics::output_seq(char_code(st.output)));
                        vstd::seq_lib::lemma_concat_associative(before_out, crate::semantics::output_seq(char_code(st.output)), run_from(A::policy(), T::modulus(), self@, program@, st.next as nat, input@.skip(pos + used), (fuel - 1) as nat).output);
                    }
                    pos = pos + used;
                    ip = st.next;
                    fuel = fuel - 1;
                },
            }
        }
    }
}

impl<T: BrainfuckCell, A: BrainfuckAllocator, R, W> VirtualMachine<T, A, R, W> {
    /// Decodes `bf_str` and runs it as [`VirtualMachine::run_program`] does.
    pub fn run_string(&mut self, bf_str: &str, input: &[u8], max_steps: usize) -> (r: RunReport)
        ensures
            decode_source(bf_str@).len() == 0 ==> final(self)@ == old(self)@ && r.status is Finished && r.output@.len() == 0 && r.consumed == 0,
            decode_source(bf_str@).len() > 0 ==> run_agrees(
                r,
                final(self)@,
                run_from(A::policy(), T::modulus(), MachineState { ptr: 0, tape: old(self)@.tape }, decode_source(bf_str@), 0, input@, max_steps as nat),
            ),
            final(self).spec_reader() == old(self).spec_reader(),
            final(self).spec_writer() == old(self).spec_writer(),
    {
        let program = Program::from_source(bf_str);
        self.run_program(&program, input, max_steps)
    }
}

/// A run as a caller sees it.
pub struct RunReport {
    /// How the run ended.
    pub status: RunStatus,
    /// The characters written, in order.
    pub output: Vec<char>,
    /// The number of input bytes read.
    pub consumed: usize,
}

/// A run of some steps, followed by the rest of the run `rest`: `output`
/// was written and `consumed` bytes were read before it.
pub open spec fn prepend(output: Seq<nat>, consumed: nat, rest: RunEffect) -> RunEffect {
    RunEffect {
        state: rest.state,
        status: rest.status,
        output: output + rest.output,
        consumed: consumed + rest.consumed,
    }
}

/// Whether a report agrees with the meaning `effect` of the run.
pub open spec fn report_agrees(r: RunReport, effect: RunEffect) -> bool {
    &&& r.status == effect.status
    &&& char_codes(r.output@) == effect.output
    &&& r.consumed as nat == effect.consumed
}

/// Whether a report and the machine's state `after` agree with the meaning
/// `effect` of the run.
pub open spec fn run_agrees(r: RunReport, after: MachineState, effect: RunEffect) -> bool {
    &&& after == effect.state
    &&& report_agrees(r, effect)
}

/// Decodes `bf_str` and runs it for at most `max_steps` steps on a fresh
/// machine with cells of type `T`, an empty tape that grows on demand, and
/// the bytes of `input` to read.
pub fn run_string<T: BrainfuckCell>(bf_str: &str, input: &[u8], max_steps: usize) -> (r: RunReport)
    ensures
        decode_source(bf_str@).len() == 0 ==> r.status is Finished && r.output@.len() == 0 && r.consumed == 0,
        decode_source(bf_str@).len() > 0 ==> report_agrees(
            r,
            run_from(AllocationPolicy::Dynamic, T::modulus(), MachineState { ptr: 0, tape: Seq::empty() }, decode_source(bf_str@), 0, input@, max_steps as nat),
        ),
{
    let mut vm: VirtualMachine<T, DynamicAllocator, (), ()> = VirtualMachine::new(0, (), ());
    proof {
        assert(zero_cells(0) =~= Seq::<nat>::empty());
    }
    vm.run_string(bf_str, input, max_steps)
}

} // verus!
