//! Classic BPF socket filters built from boolean predicates over packet
//! contents.
//!
//! A [`Predicate`] is a boolean expression whose atoms load a value from the
//! frame and compare it with an immediate. Compiling a predicate yields a
//! flat classic-BPF program whose relative jumps are computed while the
//! program is emitted back to front. The [`machine`] module gives the
//! instruction set its meaning, and [`laws`] relates what a compiled program
//! returns on a frame to what the predicate says of that frame.
use vstd::prelude::*;

pub mod address;
pub mod bdd;
pub mod capture;
pub mod cbpf;
pub mod codegen;
pub mod condition;
pub mod consts;
pub mod dump;
pub mod endian;
pub mod filter;
pub mod formula;
pub mod idiom;
pub mod laws;
pub mod machine;
pub mod predicate;
pub mod program;
pub mod semantics;

pub use address::{IpAddress, Ipv4Address, Ipv6Address, MacAddress};
pub use cbpf::{Comparison, Instruction, SocketFilter, SocketFilterProgram};
pub use condition::{Condition, ConditionView};
pub use filter::Filter;
pub use formula::Formula;
pub use predicate::Predicate;
pub use program::Program;

verus! {

/// What can go wrong while a filter is assembled.
#[derive(Debug, Clone, Copy, PartialEq, Eq, Structural)]
pub enum BsError {
    /// The program holds more than 65535 instructions, or one of its jumps
    /// would have to skip more than 255 instructions.
    FilterProgramOverflow,
}

impl BsError {
    /// The message shown for this error.
    pub fn message(&self) -> (text: &'static str)
        ensures
            text@ == "Filter program size exceeded max u16"@,
    {
        "Filter program size exceeded max u16"
    }
}

/// Largest number of instructions a program may hold.
pub const MAX_PROGRAM_LEN: usize = 65535;

/// Wraps `instructions` into a program, provided there are at most 65535 of
/// them.
pub fn instructions_to_program(instructions: Vec<Instruction>) -> (program: Result<
    SocketFilterProgram,
    BsError,
>)
    ensures
        instructions@.len() <= MAX_PROGRAM_LEN ==> program is Ok && program->Ok_0@
            == instructions@,
        instructions@.len() > MAX_PROGRAM_LEN ==> program == Err::<SocketFilterProgram, BsError>(
            BsError::FilterProgramOverflow,
        ),
{
    if instructions.len() > MAX_PROGRAM_LEN {
        return Err(BsError::FilterProgramOverflow);
    }
    Ok(SocketFilterProgram::from_vector(instructions))
}

} // verus!
