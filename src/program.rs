use vstd::prelude::*;

use crate::instruction::{decode_source, Instruction};

verus! {

/// A complete program: the instructions of a source text, in order.
pub struct Program {
    instructions: Vec<Instruction>,
}

impl View for Program {
    type V = Seq<Instruction>;

    closed spec fn view(&self) -> Seq<Instruction> {
        self.instructions@
    }
}

impl Program {
    /// Decodes a source text. Characters that stand for no instruction are
    /// skipped; bracket balance is not checked here.
    pub fn from_source(source: &str) -> (r: Program)
        ensures
            r@ == decode_source(source@),
    {
        let mut instructions: Vec<Instruction> = Vec::new();
        let ghost mut seen: Seq<char> = Seq::empty();
        for c in it: source.chars()
            invariant
                it.seq() == source@,
                seen == source@.subrange(0, it.index() as int),
                instructions@ == decode_source(seen),
        {
            proof {
                let next = seen.push(c);
                assert(next.drop_last() == seen);
                seen = next;
            }
            match Instruction::from_char(c) {
                Some(i) => instructions.push(i),
                None => {},
            }
        }
        assert(seen =~= source@);
        Program { instructions }
    }

    /// The number of instructions.
    pub fn len(&self) -> (r: usize)
        ensures
            r == self@.len(),
    {
        self.instructions.len()
    }

    /// Whether the program has no instructions.
    pub fn is_empty(&self) -> (r: bool)
        ensures
            r == (self@.len() == 0),
    {
        self.instructions.len() == 0
    }

    /// The instruction at `index`.
    pub fn instruction(&self, index: usize) -> (r: Instruction)
        requires
            index < self@.len(),
        ensures
            r == self@[index as int],
    {
        self.instructions[index]
    }

    /// The instructions, in order.
    pub fn instructions(&self) -> (r: &Vec<Instruction>)
        ensures
            r@ == self@,
    {
        &self.instructions
    }
}

} // verus!
