//! A program before its length has been checked.
use crate::cbpf::{Instruction, SocketFilterProgram};
use crate::{instructions_to_program, BsError};
use vstd::prelude::*;

verus! {

/// BPF Program for filtering packets on a socket
#[derive(Debug)]
pub struct Program {
    filter: Vec<Instruction>,
}

impl View for Program {
    type V = Seq<Instruction>;

    closed spec fn view(&self) -> Seq<Instruction> {
        self.filter@
    }
}

impl Program {
    /// Creates a new `Program` from the given instructions
    pub fn new(instructions: Vec<Instruction>) -> (program: Self)
        ensures
            program@ == instructions@,
    {
        Self { filter: instructions }
    }

    /// Creates the program that a socket takes, provided there are at most
    /// 65535 instructions.
    pub fn build(self) -> (program: Result<SocketFilterProgram, BsError>)
        ensures
            self@.len() <= 65535 ==> program is Ok && program->Ok_0@ == self@,
            self@.len() > 65535 ==> program == Err::<SocketFilterProgram, BsError>(
                BsError::FilterProgramOverflow,
            ),
    {
        instructions_to_program(self.filter)
    }
}

} // verus!
