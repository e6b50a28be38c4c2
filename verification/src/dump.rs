//! The diagnostic dump of a program.
use crate::cbpf::{Instruction, SocketFilterProgram};
use vstd::prelude::*;
use vstd::string::StringExecFns;

verus! {

/// The character of the decimal digit `d`.
pub open spec fn digit(d: nat) -> char {
    seq!['0', '1', '2', '3', '4', '5', '6', '7', '8', '9'][d as int]
}

/// `n` in decimal, without leading zeros.
pub open spec fn decimal(n: nat) -> Seq<char>
    decreases n,
{
    if n < 10 {
        seq![digit(n)]
    } else {
        decimal(n / 10).push(digit(n % 10))
    }
}

/// One instruction of the dump: its four fields in decimal, separated by
/// single spaces.
pub open spec fn dump_of_instruction(ins: Instruction) -> Seq<char> {
    decimal(ins.code as nat) + seq![' '] + decimal(ins.jt as nat) + seq![' '] + decimal(
        ins.jf as nat,
    ) + seq![' '] + decimal(ins.k as nat)
}

/// The instructions of the dump, separated by commas: a comma stands
/// between two instructions, and none after the last.
pub open spec fn dump_of_instructions(instructions: Seq<Instruction>) -> Seq<char>
    decreases instructions.len(),
{
    if instructions.len() == 0 {
        Seq::empty()
    } else if instructions.len() == 1 {
        dump_of_instruction(instructions[0])
    } else {
        dump_of_instructions(instructions.drop_last()) + seq![','] + dump_of_instruction(
            instructions.last(),
        )
    }
}

/// The dump of a program: `len: `, the number of instructions, a line
/// feed, and the instructions.
pub open spec fn dump_of(program: Seq<Instruction>) -> Seq<char> {
    seq!['l', 'e', 'n', ':', ' '] + decimal(program.len()) + seq!['\n'] + dump_of_instructions(
        program,
    )
}

/// Formats `n` with `format!("{}", n)`, which writes an unsigned number in
/// decimal without sign, padding or leading zeros.
#[verifier::external_body]
fn decimal_string(n: u32) -> (text: String)
    ensures
        text@ == decimal(n as nat),
{
    format!("{}", n)
}

fn append_number(output: &mut String, n: u32, end: &str)
    ensures
        final(output)@ == old(output)@ + decimal(n as nat) + end@,
{
    let text = decimal_string(n);
    output.append(text.as_str());
    output.append(end);
}

impl SocketFilterProgram {
    /// The diagnostic dump of the program: see [`dump_of`].
    pub fn to_dump(&self) -> (output: String)
        ensures
            output@ == dump_of(self@),
    {
        let instructions = self.instructions();
        let mut output = String::from_str("len: ");
        proof {
            reveal_strlit("len: ");
            reveal_strlit("\n");
            reveal_strlit(" ");
            reveal_strlit(",");
            reveal_strlit("");
        }
        append_number(&mut output, self.len() as u32, "\n");
        let ghost head = output@;
        assert(head =~= seq!['l', 'e', 'n', ':', ' '] + decimal(self@.len()) + seq!['\n']);
        let mut i: usize = 0;
        while i < instructions.len()
            invariant
                i <= instructions@.len(),
                " "@ == seq![' '],
                ","@ == seq![','],
                ""@ == Seq::<char>::empty(),
                output@ == head + dump_of_instructions(instructions@.take(i as int)),
            decreases instructions@.len() - i,
        {
            let ins = instructions[i];
            let ghost before = output@;
            if i > 0 {
                output.append(",");
            }
            let ghost separated = output@;
            append_number(&mut output, ins.code as u32, " ");
            append_number(&mut output, ins.jt as u32, " ");
            append_number(&mut output, ins.jf as u32, " ");
            append_number(&mut output, ins.k, "");
            proof {
                let done = instructions@.take(i as int);
                let more = instructions@.take(i + 1);
                assert(more.drop_last() =~= done);
                assert(more.last() == ins);
                assert(output@ =~= separated + dump_of_instruction(ins));
                if i == 0 {
                    assert(more[0] == ins);
                    assert(dump_of_instructions(done) =~= Seq::<char>::empty());
                    assert(output@ =~= head + dump_of_instructions(more));
                } else {
                    assert(separated =~= before + seq![',']);
                    assert(output@ =~= head + dump_of_instructions(more));
                }
            }
            i = i + 1;
        }
        assert(instructions@.take(i as int) =~= instructions@);
        output
    }
}

} // verus!
