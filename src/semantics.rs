//! The meaning of a program, as spec functions over plain values: the state
//! of a machine, one step, and a run of many steps.
use vstd::prelude::*;

use crate::allocators::{allocate, AllocationPolicy};
use crate::error::{BrainfuckExecutionError, MissingKind};
use crate::instruction::Instruction;


verus! {

/// What the contracts see of a machine: the data pointer and the values of
/// the cells of its tape.
pub struct MachineState {
    pub ptr: nat,
    pub tape: Seq<nat>,
}

/// What one step does when it succeeds: the new state, the index of the next
/// instruction, and the code point written, if any.
pub struct StepEffect {
    pub state: MachineState,
    pub next: nat,
    pub output: Option<nat>,
}

/// How a run ended.
#[derive(Debug)]
pub enum RunStatus {
    /// The instruction pointer reached the end of the program.
    Finished,
    /// An instruction raised a fatal error.
    Failed(BrainfuckExecutionError),
    /// The step budget ran out first.
    StepLimitReached,
}

/// What a run does: the final state, how it ended, the code points written
/// and the number of input bytes consumed.
pub struct RunEffect {
    pub state: MachineState,
    pub status: RunStatus,
    pub output: Seq<nat>,
    pub consumed: nat,
}

/// The value of cell `ptr`; a cell past the tape's end reads as zero.
pub open spec fn cell_at(tape: Seq<nat>, ptr: nat) -> nat {
    if ptr < tape.len() {
        tape[ptr as int]
    } else {
        0
    }
}

/// The tape with cell `ptr` set to `v`; a write past the tape's end is
/// dropped.
pub open spec fn write_cell(tape: Seq<nat>, ptr: nat, v: nat) -> Seq<nat> {
    if ptr < tape.len() {
        tape.update(ptr as int, v)
    } else {
        tape
    }
}

/// Whether `v` is a Unicode scalar value.
pub open spec fn is_scalar(v: nat) -> bool {
    v < 0xD800 || (0xE000 <= v && v <= 0x10FFFF)
}

/// The code point written for a cell value: the value itself when it is a
/// Unicode scalar value, else the replacement character.
pub open spec fn output_code(v: nat) -> nat {
    if is_scalar(v) {
        v
    } else {
        0xFFFD
    }
}

/// The code points of a sequence of characters.
pub open spec fn char_codes(s: Seq<char>) -> Seq<nat> {
    s.map_values(|c: char| (c as u32) as nat)
}

/// Scanning forward from `k` with `depth` brackets open: the index of the
/// closing bracket that brings the depth to zero, if any.
pub open spec fn find_close(prog: Seq<Instruction>, k: nat, depth: nat) -> Option<nat>
    decreases prog.len() - k,
{
    if k >= prog.len() {
        None
    } else {
        match prog[k as int] {
            Instruction::JumpFwd => find_close(prog, k + 1, depth + 1),
            Instruction::JumpBack => {
                if depth <= 1 {
                    Some(k)
                } else {
                    find_close(prog, k + 1, (depth - 1) as nat)
                }
            },
            _ => find_close(prog, k + 1, depth),
        }
    }
}

/// Scanning backward from `k` down to index 0 with `depth` brackets open:
/// the index of the opening bracket that brings the depth to zero, if any.
pub open spec fn find_open(prog: Seq<Instruction>, k: int, depth: nat) -> Option<nat>
    decreases k + 1,
{
    if k < 0 || k >= prog.len() {
        None
    } else {
        match prog[k] {
            Instruction::JumpBack => find_open(prog, k - 1, depth + 1),
            Instruction::JumpFwd => {
                if depth <= 1 {
                    Some(k as nat)
                } else {
                    find_open(prog, k - 1, (depth - 1) as nat)
                }
            },
            _ => find_open(prog, k - 1, depth),
        }
    }
}

/// The largest index the data pointer can hold.
pub open spec fn max_ptr() -> nat {
    usize::MAX as nat
}

/// `v` plus one, modulo `modulus`.
pub open spec fn incremented(v: nat, modulus: nat) -> nat {
    ((v as int + 1) % (modulus as int)) as nat
}

/// `v` minus one, modulo `modulus`.
pub open spec fn decremented(v: nat, modulus: nat) -> nat {
    ((v as int - 1) % (modulus as int)) as nat
}

/// How an instruction changes the current cell.
#[derive(Clone, Copy, Debug, PartialEq, Eq, Structural)]
pub enum CellUpdate {
    /// Add one, wrapping around.
    Incr,
    /// Subtract one, wrapping around.
    Decr,
    /// Replace the value with a byte.
    Write(u8),
}

/// The new value of a cell holding `v`, modulo `modulus`.
pub open spec fn updated(u: CellUpdate, v: nat, modulus: nat) -> nat {
    match u {
        CellUpdate::Incr => incremented(v, modulus),
        CellUpdate::Decr => decremented(v, modulus),
        CellUpdate::Write(b) => b as nat,
    }
}

/// Applies `u` to the current cell after asking the policy for room.
pub open spec fn store(
    policy: AllocationPolicy,
    modulus: nat,
    s: MachineState,
    u: CellUpdate,
    next: nat,
) -> Result<StepEffect, BrainfuckExecutionError> {
    if s.ptr >= max_ptr() {
        Err(BrainfuckExecutionError::DataPointerOverflow)
    } else {
        let (tape, r) = allocate(policy, s.tape, s.ptr + 1);
        match r {
            Err(e) => Err(BrainfuckExecutionError::MemoryError(e)),
            Ok(_) => Ok(
                StepEffect {
                    state: MachineState {
                        ptr: s.ptr,
                        tape: write_cell(tape, s.ptr, updated(u, cell_at(tape, s.ptr), modulus)),
                    },
                    next,
                    output: None,
                },
            ),
        }
    }
}

/// A step that leaves the state as it is.
pub open spec fn go_to(s: MachineState, next: nat) -> Result<StepEffect, BrainfuckExecutionError> {
    Ok(StepEffect { state: s, next, output: None })
}

/// Executes the instruction at `ip` on a machine whose cells count modulo
/// `modulus`. `input` is what a read of one byte gave (`None`: no byte);
/// only `Input` looks at it.
pub open spec fn step(
    policy: AllocationPolicy,
    modulus: nat,
    s: MachineState,
    prog: Seq<Instruction>,
    ip: nat,
    input: Option<u8>,
) -> Result<StepEffect, BrainfuckExecutionError>
    recommends
        ip < prog.len(),
{
    let v = cell_at(s.tape, s.ptr);
    match prog[ip as int] {
        Instruction::IncrDP => {
            if s.ptr >= max_ptr() {
                Err(BrainfuckExecutionError::DataPointerOverflow)
            } else {
                go_to(MachineState { ptr: s.ptr + 1, tape: s.tape }, ip + 1)
            }
        },
        Instruction::DecrDP => {
            if s.ptr == 0 {
                Err(BrainfuckExecutionError::DataPointerUnderflow)
            } else {
                go_to(MachineState { ptr: (s.ptr - 1) as nat, tape: s.tape }, ip + 1)
            }
        },
        Instruction::Incr => store(policy, modulus, s, CellUpdate::Incr, ip + 1),
        Instruction::Decr => store(policy, modulus, s, CellUpdate::Decr, ip + 1),
        Instruction::Output => Ok(StepEffect { state: s, next: ip + 1, output: Some(output_code(v)) }),
        Instruction::Input => match input {
            None => go_to(s, ip + 1),
            Some(b) => store(policy, modulus, s, CellUpdate::Write(b), ip + 1),
        },
        Instruction::JumpFwd => {
            if v != 0 {
                go_to(s, ip + 1)
            } else {
                match find_close(prog, ip + 1, 1) {
                    Some(j) => go_to(s, j),
                    None => Err(BrainfuckExecutionError::JumpMismatchError(MissingKind::JumpBack)),
                }
            }
        },
        Instruction::JumpBack => {
            if v == 0 {
                go_to(s, ip + 1)
            } else if ip == 0 {
                Err(BrainfuckExecutionError::JumpMismatchError(MissingKind::JumpFwd))
            } else {
                match find_open(prog, ip - 1, 1) {
                    Some(j) => go_to(s, j),
                    None => Err(BrainfuckExecutionError::JumpMismatchError(MissingKind::JumpFwd)),
                }
            }
        },
    }
}

/// The byte a step at `ip` is given from the remaining `input`.
pub open spec fn input_for(prog: Seq<Instruction>, ip: nat, input: Seq<u8>) -> Option<u8> {
    if prog[ip as int] == Instruction::Input && input.len() > 0 {
        Some(input[0])
    } else {
        None
    }
}

/// The code points of an optional output.
pub open spec fn output_seq(o: Option<nat>) -> Seq<nat> {
    match o {
        Some(c) => seq![c],
        None => Seq::empty(),
    }
}

/// Runs from instruction `ip` for at most `fuel` steps, reading bytes from
/// `input` in order; once `input` is used up, reads give no byte.
pub open spec fn run_from(
    policy: AllocationPolicy,
    modulus: nat,
    s: MachineState,
    prog: Seq<Instruction>,
    ip: nat,
    input: Seq<u8>,
    fuel: nat,
) -> RunEffect
    decreases fuel,
{
    if ip >= prog.len() {
        RunEffect { state: s, status: RunStatus::Finished, output: Seq::empty(), consumed: 0 }
    } else if fuel == 0 {
        RunEffect { state: s, status: RunStatus::StepLimitReached, output: Seq::empty(), consumed: 0 }
    } else {
        let byte = input_for(prog, ip, input);
        let used: nat = if byte is Some { 1 } else { 0 };
        match step(policy, modulus, s, prog, ip, byte) {
            Err(e) => RunEffect { state: s, status: RunStatus::Failed(e), output: Seq::empty(), consumed: used },
            Ok(eff) => {
                let rest = run_from(policy, modulus, eff.state, prog, eff.next, input.skip(used as int), (fuel - 1) as nat);
                RunEffect {
                    state: rest.state,
                    status: rest.status,
                    output: output_seq(eff.output) + rest.output,
                    consumed: used + rest.consumed,
                }
            },
        }
    }
}

/// How an instruction changes the bracket depth.
pub open spec fn bracket_delta(i: Instruction) -> int {
    match i {
        Instruction::JumpFwd => 1,
        Instruction::JumpBack => -1,
        _ => 0,
    }
}

/// Opening minus closing brackets in `prog[a..b)`.
pub open spec fn bracket_depth(prog: Seq<Instruction>, a: int, b: int) -> int
    decreases b - a,
{
    if b <= a {
        0
    } else {
        bracket_depth(prog, a, b - 1) + bracket_delta(prog[b - 1])
    }
}

/// `prog[i]` and `prog[j]` are an opening and a closing bracket that match:
/// between them the brackets balance, and no prefix of that stretch closes
/// more than it opens.
pub open spec fn is_matching_pair(prog: Seq<Instruction>, i: int, j: int) -> bool {
    &&& 0 <= i < j < prog.len()
    &&& prog[i] == Instruction::JumpFwd
    &&& prog[j] == Instruction::JumpBack
    &&& bracket_depth(prog, i + 1, j) == 0
    &&& forall|k: int| i + 1 <= k <= j ==> #[trigger] bracket_depth(prog, i + 1, k) >= 0
}

/// The depth over `[a, c)` is the depth over `[a, b)` plus that over `[b, c)`.
proof fn lemma_depth_split(prog: Seq<Instruction>, a: int, b: int, c: int)
    requires
        a <= b <= c,
    ensures
        bracket_depth(prog, a, c) == bracket_depth(prog, a, b) + bracket_depth(prog, b, c),
    decreases c - b,
{
    if c > b {
        lemma_depth_split(prog, a, b, c - 1);
    }
}

/// Scanning forward from inside a matching pair finds its closing bracket.
proof fn lemma_find_close_matching(prog: Seq<Instruction>, i: int, j: int, k: int)
    requires
        is_matching_pair(prog, i, j),
        i + 1 <= k <= j,
    ensures
        find_close(prog, k as nat, (1 + bracket_depth(prog, i + 1, k)) as nat) == Some(j as nat),
    decreases j - k,
{
    let d = 1 + bracket_depth(prog, i + 1, k);
    assert(bracket_depth(prog, i + 1, k + 1) == bracket_depth(prog, i + 1, k) + bracket_delta(prog[k]));
    if k < j {
        assert(bracket_depth(prog, i + 1, k + 1) >= 0);
        lemma_find_close_matching(prog, i, j, k + 1);
    }
}

/// Scanning backward from inside a matching pair finds its opening bracket.
proof fn lemma_find_open_matching(prog: Seq<Instruction>, i: int, j: int, k: int)
    requires
        is_matching_pair(prog, i, j),
        i <= k < j,
    ensures
        find_open(prog, k, (1 + bracket_depth(prog, i + 1, k + 1)) as nat) == Some(i as nat),
    decreases k - i,
{
    if k > i {
        assert(bracket_depth(prog, i + 1, k + 1) == bracket_depth(prog, i + 1, k) + bracket_delta(prog[k]));
        assert(bracket_depth(prog, i + 1, k) >= 0);
        lemma_find_open_matching(prog, i, j, k - 1);
    }
}

/// Entering a loop: at the opening bracket of a matching pair, a zero cell
/// jumps to the closing bracket, which then moves past it with the state
/// unchanged, so the body is skipped; a nonzero cell goes on into the body.
/// At the closing bracket, a nonzero cell jumps back to the opening one.
pub proof fn lemma_loop_pair(
    policy: AllocationPolicy,
    modulus: nat,
    s: MachineState,
    prog: Seq<Instruction>,
    i: nat,
    j: nat,
    input: Option<u8>,
)
    requires
        is_matching_pair(prog, i as int, j as int),
    ensures
        cell_at(s.tape, s.ptr) == 0 ==> step(policy, modulus, s, prog, i, input) == go_to(s, j),
        cell_at(s.tape, s.ptr) == 0 ==> step(policy, modulus, s, prog, j, input) == go_to(s, j + 1),
        cell_at(s.tape, s.ptr) != 0 ==> step(policy, modulus, s, prog, i, input) == go_to(s, i + 1),
        cell_at(s.tape, s.ptr) != 0 ==> step(policy, modulus, s, prog, j, input) == go_to(s, i),
{
    lemma_find_close_matching(prog, i as int, j as int, i as int + 1);
    lemma_find_open_matching(prog, i as int, j as int, j - 1);
    lemma_depth_split(prog, i as int + 1, j as int, j as int);
}

/// The same law over whole runs: from the opening bracket of a matching
/// pair with a zero cell, a run goes on from just past the closing bracket,
/// two steps later and with nothing written or read; with a nonzero cell it
/// goes on from the first instruction of the body.
pub proof fn lemma_loop_pair_run(
    policy: AllocationPolicy,
    modulus: nat,
    s: MachineState,
    prog: Seq<Instruction>,
    i: nat,
    j: nat,
    input: Seq<u8>,
    fuel: nat,
)
    requires
        is_matching_pair(prog, i as int, j as int),
    ensures
        cell_at(s.tape, s.ptr) == 0 ==> run_from(policy, modulus, s, prog, i, input, fuel + 2) == run_from(policy, modulus, s, prog, j + 1, input, fuel),
        cell_at(s.tape, s.ptr) != 0 ==> run_from(policy, modulus, s, prog, i, input, fuel + 1) == run_from(policy, modulus, s, prog, i + 1, input, fuel),
{
    lemma_loop_pair(policy, modulus, s, prog, i, j, None);
    assert(input.skip(0) =~= input);
    let rest = run_from(policy, modulus, s, prog, j + 1, input, fuel);
    assert(output_seq(None) + rest.output =~= rest.output);
    let mid = run_from(policy, modulus, s, prog, j, input, fuel + 1);
    assert(output_seq(None) + mid.output =~= mid.output);
    let body = run_from(policy, modulus, s, prog, i + 1, input, fuel);
    assert(output_seq(None) + body.output =~= body.output);
}

} // verus!
