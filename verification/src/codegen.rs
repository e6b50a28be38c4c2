//! The code generator: from an expression over conditions to instructions.
//!
//! The program is emitted back to front. While an expression is walked,
//! `jt` and `jf` say how many of the instructions emitted so far lie between
//! the point where the expression's value is known and the place where the
//! frame is accepted or dropped. A jump's distance is therefore known when
//! the jump is emitted.
use crate::cbpf::{
    contradiction, drop_instruction, load_length_instruction, load_length_op, return_a_instruction,
    return_a_op, return_sequence, Instruction, MAX_JUMP,
};
use crate::condition::{reversed, Condition, ConditionView};
use crate::filter::Filter;
use crate::formula::Formula;
use crate::laws::{jump_free, lands_within, law_jumps_land};
use crate::machine::keeps;
use crate::semantics::{kept_by, theorem_program_runs, well_formed};
use crate::{BsError, MAX_PROGRAM_LEN};
use vstd::prelude::*;

verus! {

/// `LD LEN; RET A`: keep the whole frame.
pub open spec fn accept_sequence() -> Seq<Instruction> {
    seq![load_length_instruction(), return_a_instruction()]
}

/// The end of every compiled program: accept, then drop.
pub open spec fn epilogue() -> Seq<Instruction> {
    seq![load_length_instruction(), return_a_instruction(), drop_instruction()]
}

/// The instructions for `e`, in execution order, where `jt` instructions
/// lie between its end and the place where the frame is accepted and `jf`
/// between its end and the place where it is dropped. `None` where a jump
/// would have to cover more than 255 instructions.
pub open spec fn emit(e: Formula<ConditionView>, jt: nat, jf: nat) -> Option<Seq<Instruction>>
    decreases e,
{
    match e {
        Formula::Terminal(c) => if jt <= MAX_JUMP && jf <= MAX_JUMP {
            Some(c.code(jt as u8, jf as u8))
        } else {
            None
        },
        Formula::Const(value) => if value {
            Some(accept_sequence())
        } else {
            Some(seq![drop_instruction()])
        },
        Formula::Not(x) => emit(*x, jf, jt),
        Formula::And(a, b) => match emit(*b, jt, jf) {
            None => None,
            Some(second) => if jf + second.len() > MAX_JUMP {
                None
            } else {
                match emit(*a, 0, jf + second.len()) {
                    None => None,
                    Some(first) => Some(first + second),
                }
            },
        },
        Formula::Or(a, b) => match emit(*b, jt, jf) {
            None => None,
            Some(second) => if jt + second.len() > MAX_JUMP {
                None
            } else {
                match emit(*a, jt + second.len(), 0) {
                    None => None,
                    Some(first) => Some(first + second),
                }
            },
        },
    }
}

/// The whole program for `e`: its instructions, then the epilogue. `None`
/// where a jump would be too long or the program would hold more than 65535
/// instructions.
pub open spec fn program_of(e: Formula<ConditionView>) -> Option<Seq<Instruction>> {
    match emit(e, 0, 2) {
        None => None,
        Some(body) => if body.len() + 3 > MAX_PROGRAM_LEN {
            None
        } else {
            Some(body + epilogue())
        },
    }
}

/// Whether `program` ends with the epilogue.
pub open spec fn ends_with_epilogue(program: Seq<Instruction>) -> bool {
    program.len() >= 3 && program.subrange(program.len() - 3, program.len() as int) == epilogue()
}

/// The instructions for `e`, last one first.
fn walk(e: &Formula<Condition>, jt: usize, jf: usize) -> (r: Result<Vec<Instruction>, BsError>)
    requires
        jt <= MAX_JUMP,
        jf <= MAX_JUMP,
    ensures
        match r {
            Ok(v) => emit(e@, jt as nat, jf as nat) == Some(v@.reverse()),
            Err(err) => err == BsError::FilterProgramOverflow && emit(e@, jt as nat, jf as nat)
                is None,
        },
    decreases e,
{
    match e {
        Formula::Terminal(condition) => {
            let v = condition.build(jt, jf);
            proof {
                let code = condition@.code(jt as u8, jf as u8);
                assert(code.reverse().reverse() =~= code);
            }
            Ok(v)
        },
        Formula::Not(x) => walk(&**x, jf, jt),
        Formula::And(a, b) => {
            let mut res = match walk(&**b, jt, jf) {
                Ok(v) => v,
                Err(err) => {
                    return Err(err);
                },
            };
            if res.len() > MAX_JUMP - jf {
                return Err(BsError::FilterProgramOverflow);
            }
            let mut first = match walk(&**a, 0, jf + res.len()) {
                Ok(v) => v,
                Err(err) => {
                    return Err(err);
                },
            };
            proof {
                let second = res@.reverse();
                assert((res@ + first@).reverse() =~= first@.reverse() + second);
            }
            res.append(&mut first);
            Ok(res)
        },
        Formula::Or(a, b) => {
            let mut res = match walk(&**b, jt, jf) {
                Ok(v) => v,
                Err(err) => {
                    return Err(err);
                },
            };
            if res.len() > MAX_JUMP - jt {
                return Err(BsError::FilterProgramOverflow);
            }
            let mut first = match walk(&**a, jt + res.len(), 0) {
                Ok(v) => v,
                Err(err) => {
                    return Err(err);
                },
            };
            proof {
                let second = res@.reverse();
                assert((res@ + first@).reverse() =~= first@.reverse() + second);
            }
            res.append(&mut first);
            Ok(res)
        },
        Formula::Const(boolean) => {
            if *boolean {
                let v = vec![return_a_op(), load_length_op()];
                assert(v@.reverse() =~= accept_sequence());
                Ok(v)
            } else {
                let v = contradiction();
                assert(v@.reverse() =~= seq![drop_instruction()]);
                Ok(v)
            }
        },
    }
}

/// Generates the program for `expr` as it stands, without simplifying it
/// first.
pub fn generate(expr: &Formula<Condition>) -> (r: Result<Filter, BsError>)
    ensures
        match r {
            Ok(filter) => program_of(expr@) == Some(filter@),
            Err(err) => err == BsError::FilterProgramOverflow && program_of(expr@) is None,
        },
        r is Ok ==> r->Ok_0@.len() <= MAX_PROGRAM_LEN && ends_with_epilogue(r->Ok_0@),
        r is Ok && jump_free(expr@) ==> lands_within(r->Ok_0@, 0),
        r is Ok && well_formed(expr@) ==> forall|frame: Seq<u8>| #[trigger]
            keeps(r->Ok_0@, frame) == kept_by(expr@, frame),
{
    let (mut instructions, jt, jf) = return_sequence();
    let mut body = match walk(expr, jt, jf) {
        Ok(v) => v,
        Err(err) => {
            return Err(err);
        },
    };
    if body.len() > MAX_PROGRAM_LEN - 3 {
        return Err(BsError::FilterProgramOverflow);
    }
    proof {
        assert(instructions@.reverse() =~= epilogue());
        assert((instructions@ + body@).reverse() =~= body@.reverse() + epilogue());
    }
    instructions.append(&mut body);
    let ordered = reversed(&instructions);
    proof {
        let program = ordered@;
        assert(program.subrange(program.len() - 3, program.len() as int) =~= epilogue());
        if jump_free(expr@) {
            law_jumps_land(expr@);
        }
        if well_formed(expr@) {
            assert forall|frame: Seq<u8>| #[trigger]
                keeps(program, frame) == kept_by(expr@, frame) by {
                theorem_program_runs(expr@, frame);
            }
        }
    }
    Ok(Filter::from_vec(ordered))
}

} // verus!
