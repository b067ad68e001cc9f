use vstd::prelude::*;

verus! {

/// A single instruction of the machine.
#[derive(Clone, Copy, Debug, PartialEq, Eq, Structural)]
pub enum Instruction {
    /// Move the data pointer one cell to the right.
    IncrDP,
    /// Move the data pointer one cell to the left.
    DecrDP,
    /// Add one to the current cell, wrapping around.
    Incr,
    /// Subtract one from the current cell, wrapping around.
    Decr,
    /// Write the current cell to the output as a character.
    Output,
    /// Read one byte of input into the current cell.
    Input,
    /// If the current cell is zero, jump forward to the matching `JumpBack`.
    JumpFwd,
    /// If the current cell is not zero, jump back to the matching `JumpFwd`.
    JumpBack,
}

/// The instruction that a source character stands for, if any.
pub open spec fn spec_decode(c: char) -> Option<Instruction> {
    if c == '>' {
        Some(Instruction::IncrDP)
    } else if c == '<' {
        Some(Instruction::DecrDP)
    } else if c == '+' {
        Some(Instruction::Incr)
    } else if c == '-' {
        Some(Instruction::Decr)
    } else if c == '.' {
        Some(Instruction::Output)
    } else if c == ',' {
        Some(Instruction::Input)
    } else if c == '[' {
        Some(Instruction::JumpFwd)
    } else if c == ']' {
        Some(Instruction::JumpBack)
    } else {
        None
    }
}

/// The instructions of a source text, in order; every character that stands
/// for no instruction is left out.
pub open spec fn decode_source(s: Seq<char>) -> Seq<Instruction>
    decreases s.len(),
{
    if s.len() == 0 {
        Seq::empty()
    } else {
        let rest = decode_source(s.drop_last());
        match spec_decode(s.last()) {
            Some(i) => rest.push(i),
            None => rest,
        }
    }
}

impl Instruction {
    /// Decodes one source character; `None` for a character that stands for
    /// no instruction.
    pub fn from_char(c: char) -> (r: Option<Instruction>)
        ensures
            r == spec_decode(c),
    {
        match c {
            '>' => Some(Instruction::IncrDP),
            '<' => Some(Instruction::DecrDP),
            '+' => Some(Instruction::Incr),
            '-' => Some(Instruction::Decr),
            '.' => Some(Instruction::Output),
            ',' => Some(Instruction::Input),
            '[' => Some(Instruction::JumpFwd),
            ']' => Some(Instruction::JumpBack),
            _ => None,
        }
    }
}

impl TryFrom<char> for Instruction {
    type Error = ();

    fn try_from(value: char) -> (r: Result<Instruction, ()>) {
        match Instruction::from_char(value) {
            Some(i) => Ok(i),
            None => Err(()),
        }
    }
}

impl vstd::std_specs::convert::TryFromSpecImpl<char> for Instruction {
    open spec fn obeys_try_from_spec() -> bool {
        true
    }

    open spec fn try_from_spec(value: char) -> Result<Instruction, ()> {
        match spec_decode(value) {
            Some(i) => Ok(i),
            None => Err(()),
        }
    }
}

/// Decoding is a function of the text alone: two equal texts decode to the
/// same program.
pub proof fn lemma_decode_deterministic(a: Seq<char>, b: Seq<char>)
    requires
        a == b,
    ensures
        decode_source(a) == decode_source(b),
{
}

/// Decoding a concatenation decodes each part.
pub proof fn lemma_decode_concat(a: Seq<char>, b: Seq<char>)
    ensures
        decode_source(a + b) == decode_source(a) + decode_source(b),
    decreases b.len(),
{
    if b.len() == 0 {
        assert(a + b =~= a);
        assert(decode_source(a) + decode_source(b) =~= decode_source(a));
    } else {
        assert((a + b).drop_last() =~= a + b.drop_last());
        assert((a + b).last() == b.last());
        lemma_decode_concat(a, b.drop_last());
        match spec_decode(b.last()) {
            Some(i) => {
                assert(decode_source(a) + decode_source(b.drop_last()).push(i) =~= (decode_source(a) + decode_source(b.drop_last())).push(i));
            },
            None => {},
        }
    }
}

/// A text in which no character stands for an instruction decodes to
/// nothing.
pub proof fn lemma_decode_no_instructions(c: Seq<char>)
    requires
        forall|k: int| 0 <= k < c.len() ==> spec_decode(#[trigger] c[k]) is None,
    ensures
        decode_source(c) == Seq::<Instruction>::empty(),
    decreases c.len(),
{
    if c.len() > 0 {
        lemma_decode_no_instructions(c.drop_last());
    }
}

/// Characters that stand for no instruction, inserted anywhere in a text,
/// do not change the decoded program.
pub proof fn lemma_decode_ignores_comments(a: Seq<char>, comment: Seq<char>, b: Seq<char>)
    requires
        forall|k: int| 0 <= k < comment.len() ==> spec_decode(#[trigger] comment[k]) is None,
    ensures
        decode_source(a + comment + b) == decode_source(a + b),
{
    lemma_decode_concat(a + comment, b);
    lemma_decode_concat(a, comment);
    lemma_decode_concat(a, b);
    lemma_decode_no_instructions(comment);
    assert(decode_source(a) + Seq::<Instruction>::empty() =~= decode_source(a));
}

} // verus!
