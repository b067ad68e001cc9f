//! The allocation policies: how the tape answers an access at a given index.
use vstd::prelude::*;

use crate::cell::BrainfuckCell;
use crate::error::{OutOfBoundsAccess, VMMemoryError};

verus! {

/// The three ways a tape can answer an access past its end.
#[derive(Clone, Copy, Debug, PartialEq, Eq, Structural)]
pub enum AllocationPolicy {
    /// The tape grows with zero cells to cover the access.
    Dynamic,
    /// The tape never grows; an access past its end is an error.
    BoundsChecked,
    /// The tape never grows and nothing is checked.
    Unchecked,
}

/// The values held by a sequence of cells.
pub open spec fn cell_values<T: BrainfuckCell>(cells: Seq<T>) -> Seq<nat> {
    cells.map_values(|c: T| c.value())
}

/// `n` cells holding zero.
pub open spec fn zero_cells(n: nat) -> Seq<nat> {
    Seq::new(n, |i: int| 0nat)
}

/// The tape (as values) and the result after asking `policy` for at least
/// `min_size` cells.
pub open spec fn allocate(policy: AllocationPolicy, tape: Seq<nat>, min_size: nat) -> (Seq<nat>, Result<(), VMMemoryError>) {
    match policy {
        AllocationPolicy::Dynamic => {
            if tape.len() < min_size {
                (tape + zero_cells((min_size - tape.len()) as nat), Ok(()))
            } else {
                (tape, Ok(()))
            }
        },
        AllocationPolicy::BoundsChecked => {
            if min_size > tape.len() {
                (
                    tape,
                    Err(
                        VMMemoryError::OutOfBounds(
                            OutOfBoundsAccess { capacity: tape.len() as usize, access: min_size as usize },
                        ),
                    ),
                )
            } else {
                (tape, Ok(()))
            }
        },
        AllocationPolicy::Unchecked => (tape, Ok(())),
    }
}

/// A policy that decides how the tape responds to an access.
pub trait BrainfuckAllocator {
    /// The policy this allocator follows.
    spec fn policy() -> AllocationPolicy;

    /// Makes `data` cover at least `min_size` cells, as far as the policy
    /// allows. New cells hold zero.
    fn ensure_capacity<T: BrainfuckCell>(data: &mut Vec<T>, min_size: usize) -> (r: Result<(), VMMemoryError>)
        ensures
            (cell_values(final(data)@), r) == allocate(Self::policy(), cell_values(old(data)@), min_size as nat),
            final(data)@.len() <= old(data)@.len() ==> final(data)@ == old(data)@,
    ;
}

/// Grows the tape on demand: every access succeeds.
pub struct DynamicAllocator;

impl BrainfuckAllocator for DynamicAllocator {
    open spec fn policy() -> AllocationPolicy {
        AllocationPolicy::Dynamic
    }

    fn ensure_capacity<T: BrainfuckCell>(data: &mut Vec<T>, min_size: usize) -> (r: Result<(), VMMemoryError>) {
        let ghost start = cell_values(data@);
        let ghost start_cells = data@;
        while data.len() < min_size
            invariant
                start.len() <= data@.len(),
                data@.len() <= min_size || data@ == start_cells,
                data@.len() == start.len() ==> data@ == start_cells,
                cell_values(data@) == start + zero_cells((data@.len() - start.len()) as nat),
            decreases min_size - data@.len(),
        {
            let z = T::zero();
            let ghost before = data@;
            data.push(z);
            proof {
                assert(cell_values(data@) =~= cell_values(before).push(z.value()));
                assert(cell_values(data@) =~= start + zero_cells((data@.len() - start.len()) as nat));
            }
        }
        proof {
            if start.len() >= min_size {
                assert(cell_values(data@) =~= start);
            }
        }
        Ok(())
    }
}

/// Never grows the tape; an access past its end fails with
/// [`VMMemoryError::OutOfBounds`].
pub struct BoundsCheckingStaticAllocator;

impl BrainfuckAllocator for BoundsCheckingStaticAllocator {
    open spec fn policy() -> AllocationPolicy {
        AllocationPolicy::BoundsChecked
    }

    fn ensure_capacity<T: BrainfuckCell>(data: &mut Vec<T>, min_size: usize) -> (r: Result<(), VMMemoryError>) {
        if min_size > data.len() {
            Err(VMMemoryError::OutOfBounds(OutOfBoundsAccess { capacity: data.len(), access: min_size }))
        } else {
            Ok(())
        }
    }
}

/// Never grows the tape and checks nothing. The machine drops a write to a
/// cell past the tape's end and reads such a cell as zero; the caller is
/// expected to preallocate enough cells.
pub struct StaticAllocator;

impl BrainfuckAllocator for StaticAllocator {
    open spec fn policy() -> AllocationPolicy {
        AllocationPolicy::Unchecked
    }

    fn ensure_capacity<T: BrainfuckCell>(data: &mut Vec<T>, min_size: usize) -> (r: Result<(), VMMemoryError>) {
        Ok(())
    }
}

/// Under the dynamic policy an access at any index `i` succeeds, and the
/// tape then covers `i`: the old cells are kept and any new ones hold zero.
pub proof fn lemma_dynamic_access(tape: Seq<nat>, i: nat)
    ensures
        ({
            let (after, r) = allocate(AllocationPolicy::Dynamic, tape, i + 1);
            &&& r is Ok
            &&& after.len() >= i + 1
            &&& after.subrange(0, tape.len() as int) == tape
            &&& forall|k: int| tape.len() <= k < after.len() ==> after[k] == 0
        }),
{
    let (after, r) = allocate(AllocationPolicy::Dynamic, tape, i + 1);
    assert(after.subrange(0, tape.len() as int) =~= tape);
}

/// Under the bounds-checked policy, on a tape of `n` cells an access at
/// index `i < n` succeeds, and one at `i >= n` fails reporting capacity `n`
/// and access `i + 1`; the tape never changes.
pub proof fn lemma_bounds_checked_access(tape: Seq<nat>, i: nat)
    requires
        tape.len() <= usize::MAX,
        i < usize::MAX,
    ensures
        i < tape.len() ==> allocate(AllocationPolicy::BoundsChecked, tape, i + 1) == (tape, Ok::<(), VMMemoryError>(())),
        i >= tape.len() ==> allocate(AllocationPolicy::BoundsChecked, tape, i + 1) == (
            tape,
            Err::<(), VMMemoryError>(VMMemoryError::OutOfBounds(OutOfBoundsAccess { capacity: tape.len() as usize, access: (i + 1) as usize })),
        ),
        (allocate(AllocationPolicy::BoundsChecked, tape, i + 1).1 matches Err(VMMemoryError::OutOfBounds(a)) ==> a.capacity == tape.len() && a.access == i + 1),
{
}

} // verus!
