//! What a predicate says of a frame, and the proof that the generated code
//! says the same.
use crate::cbpf::{
    drop_instruction, jump_instruction, load_length_instruction, return_a_instruction,
    Instruction,
};
use crate::codegen::{accept_sequence, emit, epilogue, program_of};
use crate::condition::ConditionView;
use crate::formula::Formula;
use crate::machine::{
    initial, is_transfer, keeps, lemma_epilogue_steps, lemma_jump_step, lemma_run_go,
    lemma_transfer_step, length_of, run, step, Effect, State,
};
use vstd::prelude::*;

verus! {

/// Whether `computation` holds only loads and stores.
pub open spec fn straight(computation: Seq<Instruction>) -> bool {
    forall|i: int| 0 <= i < computation.len() ==> is_transfer(#[trigger] computation[i].code)
}

/// Whether the computation of every condition of `e` holds only loads and
/// stores.
pub open spec fn well_formed(e: Formula<ConditionView>) -> bool {
    forall|c: ConditionView| #[trigger] e.mentions(c) ==> straight(c.computation)
}

/// The state in which `computation` ends when it goes on at its index `i`
/// in state `s`; `None` where it drops the frame.
pub open spec fn compute(computation: Seq<Instruction>, i: int, s: State, frame: Seq<u8>)
    -> Option<State>
    decreases computation.len() - i,
{
    if i < 0 || i >= computation.len() {
        Some(s)
    } else {
        match step(computation[i], s, frame) {
            Effect::Go(next, skip) => if skip == 0 {
                compute(computation, i + 1, next, frame)
            } else {
                None
            },
            _ => None,
        }
    }
}

/// How the evaluation of an expression on a frame ends.
pub enum Outcome {
    /// The expression is true; the machine is left in the given state.
    True(State),
    /// The expression is false; the machine is left in the given state.
    False(State),
    /// A constant `true` was reached: the frame passes.
    Accept,
    /// A constant `false` was reached or a load failed: the frame is
    /// dropped.
    Drop,
}

/// How the evaluation of condition `c` ends, started in state `s`.
pub open spec fn decide(c: ConditionView, s: State, frame: Seq<u8>) -> Outcome {
    match compute(c.computation, 0, s, frame) {
        None => Outcome::Drop,
        Some(after) => if c.comparison.holds(after.a, c.operand) {
            Outcome::True(after)
        } else {
            Outcome::False(after)
        },
    }
}

/// How the evaluation of `e` ends, started in state `s`. Conditions are
/// evaluated from left to right, and only as far as the value of `e` is not
/// yet known. A constant ends the evaluation where it is reached.
pub open spec fn outcome(e: Formula<ConditionView>, s: State, frame: Seq<u8>) -> Outcome
    decreases e,
{
    match e {
        Formula::Terminal(c) => decide(c, s, frame),
        Formula::Const(value) => if value {
            Outcome::Accept
        } else {
            Outcome::Drop
        },
        Formula::Not(x) => match outcome(*x, s, frame) {
            Outcome::True(after) => Outcome::False(after),
            Outcome::False(after) => Outcome::True(after),
            other => other,
        },
        Formula::And(a, b) => match outcome(*a, s, frame) {
            Outcome::True(after) => outcome(*b, after, frame),
            other => other,
        },
        Formula::Or(a, b) => match outcome(*a, s, frame) {
            Outcome::False(after) => outcome(*b, after, frame),
            other => other,
        },
    }
}

/// What a program keeps of the frame once the code of an expression has
/// ended at instruction `end` with outcome `o`, the accept lying `jt`
/// instructions further and the drop `jf`.
pub open spec fn resume(
    o: Outcome,
    program: Seq<Instruction>,
    frame: Seq<u8>,
    end: int,
    jt: nat,
    jf: nat,
) -> u32 {
    match o {
        Outcome::True(after) => run(program, frame, end + jt, after),
        Outcome::False(after) => run(program, frame, end + jf, after),
        Outcome::Accept => length_of(frame),
        Outcome::Drop => 0,
    }
}

/// Whether `program` holds `code` from instruction `start` on.
pub open spec fn holds_at(program: Seq<Instruction>, start: int, code: Seq<Instruction>) -> bool {
    &&& 0 <= start
    &&& start + code.len() <= program.len()
    &&& forall|j: int| 0 <= j < code.len() ==> program[start + j] == #[trigger] code[j]
}

/// Running a computation of loads and stores inside a program ends where
/// the computation ends, in the state that it computes, or drops the frame.
proof fn lemma_run_straight(
    program: Seq<Instruction>,
    frame: Seq<u8>,
    start: int,
    computation: Seq<Instruction>,
    i: int,
    s: State,
)
    requires
        straight(computation),
        0 <= i <= computation.len(),
        holds_at(program, start, computation),
    ensures
        run(program, frame, start + i, s) == match compute(computation, i, s, frame) {
            None => 0u32,
            Some(after) => run(program, frame, start + computation.len(), after),
        },
    decreases computation.len() - i,
{
    if i < computation.len() {
        let ins = computation[i];
        assert(program[start + i] == ins);
        assert(is_transfer(ins.code));
        lemma_transfer_step(ins, s, frame);
        match step(ins, s, frame) {
            Effect::Go(next, skip) => {
                lemma_run_go(program, frame, start + i, s, next, skip);
                lemma_run_straight(program, frame, start, computation, i + 1, next);
            },
            Effect::Return(_) => {},
            Effect::Fault => {},
        }
    }
}

/// The code generator is right: running the code of `e` inside a program
/// goes on `jt` instructions after the code where `e` is true and `jf`
/// where it is false, each in the state that the evaluation of `e` leaves,
/// keeps the whole frame where a constant `true` is reached, and drops the
/// frame where a constant `false` is reached or a load fails.
pub proof fn lemma_emit_runs(
    e: Formula<ConditionView>,
    jt: nat,
    jf: nat,
    program: Seq<Instruction>,
    start: int,
    s: State,
    frame: Seq<u8>,
)
    requires
        well_formed(e),
        emit(e, jt, jf) is Some,
        holds_at(program, start, emit(e, jt, jf)->Some_0),
    ensures
        run(program, frame, start, s) == resume(
            outcome(e, s, frame),
            program,
            frame,
            start + emit(e, jt, jf)->Some_0.len(),
            jt,
            jf,
        ),
    decreases e,
{
    let code = emit(e, jt, jf)->Some_0;
    match e {
        Formula::Terminal(c) => {
            assert(e.mentions(c));
            let computation = c.computation;
            let jump = jump_instruction(c.comparison, c.operand, jt as u8, jf as u8);
            assert(code == computation.push(jump));
            assert(holds_at(program, start, computation)) by {
                assert forall|j: int| 0 <= j < computation.len() implies program[start + j]
                    == #[trigger] computation[j] by {
                    assert(code[j] == computation[j]);
                }
            }
            lemma_run_straight(program, frame, start, computation, 0, s);
            match compute(computation, 0, s, frame) {
                None => {},
                Some(after) => {
                    let at = start + computation.len();
                    assert(program[at] == code[computation.len() as int]);
                    lemma_jump_step(c.comparison, c.operand, jt as u8, jf as u8, after, frame);
                    let skip = if c.comparison.holds(after.a, c.operand) {
                        jt
                    } else {
                        jf
                    };
                    lemma_run_go(program, frame, at, after, after, skip);
                },
            }
        },
        Formula::Const(value) => {
            if value {
                assert(code == accept_sequence());
                assert(program[start] == code[0]);
                assert(program[start + 1] == code[1]);
                let loaded = State { a: length_of(frame), ..s };
                lemma_epilogue_steps(s, frame);
                lemma_epilogue_steps(loaded, frame);
                lemma_run_go(program, frame, start, s, loaded, 0);
            } else {
                assert(program[start] == code[0]);
                lemma_epilogue_steps(s, frame);
            }
        },
        Formula::Not(x) => {
            assert forall|c: ConditionView| x.mentions(c) implies straight(c.computation) by {
                assert(e.mentions(c));
            }
            lemma_emit_runs(*x, jf, jt, program, start, s, frame);
        },
        Formula::And(a, b) => {
            assert forall|c: ConditionView| a.mentions(c) || b.mentions(c) implies straight(
                c.computation,
            ) by {
                assert(e.mentions(c));
            }
            let second = emit(*b, jt, jf)->Some_0;
            let first = emit(*a, 0, jf + second.len())->Some_0;
            assert(code == first + second);
            assert(holds_at(program, start, first)) by {
                assert forall|j: int| 0 <= j < first.len() implies program[start + j]
                    == #[trigger] first[j] by {
                    assert(code[j] == first[j]);
                }
            }
            let middle = start + first.len();
            assert(holds_at(program, middle, second)) by {
                assert forall|j: int| 0 <= j < second.len() implies program[middle + j]
                    == #[trigger] second[j] by {
                    assert(code[first.len() + j] == second[j]);
                }
            }
            lemma_emit_runs(*a, 0, jf + second.len(), program, start, s, frame);
            match outcome(*a, s, frame) {
                Outcome::True(after) => {
                    lemma_emit_runs(*b, jt, jf, program, middle, after, frame);
                },
                _ => {},
            }
        },
        Formula::Or(a, b) => {
            assert forall|c: ConditionView| a.mentions(c) || b.mentions(c) implies straight(
                c.computation,
            ) by {
                assert(e.mentions(c));
            }
            let second = emit(*b, jt, jf)->Some_0;
            let first = emit(*a, jt + second.len(), 0)->Some_0;
            assert(code == first + second);
            assert(holds_at(program, start, first)) by {
                assert forall|j: int| 0 <= j < first.len() implies program[start + j]
                    == #[trigger] first[j] by {
                    assert(code[j] == first[j]);
                }
            }
            let middle = start + first.len();
            assert(holds_at(program, middle, second)) by {
                assert forall|j: int| 0 <= j < second.len() implies program[middle + j]
                    == #[trigger] second[j] by {
                    assert(code[first.len() + j] == second[j]);
                }
            }
            lemma_emit_runs(*a, jt + second.len(), 0, program, start, s, frame);
            match outcome(*a, s, frame) {
                Outcome::False(after) => {
                    lemma_emit_runs(*b, jt, jf, program, middle, after, frame);
                },
                _ => {},
            }
        },
    }
}

/// What the program of an expression keeps of a frame: all of it where the
/// evaluation ends in true or reaches a constant `true`, nothing otherwise.
pub open spec fn kept_by(e: Formula<ConditionView>, frame: Seq<u8>) -> u32 {
    match outcome(e, initial(), frame) {
        Outcome::True(_) => length_of(frame),
        Outcome::Accept => length_of(frame),
        Outcome::False(_) => 0,
        Outcome::Drop => 0,
    }
}

/// The program of an expression keeps of every frame what the evaluation
/// of the expression says.
pub proof fn theorem_program_runs(e: Formula<ConditionView>, frame: Seq<u8>)
    requires
        well_formed(e),
        program_of(e) is Some,
    ensures
        keeps(program_of(e)->Some_0, frame) == kept_by(e, frame),
{
    let body = emit(e, 0, 2)->Some_0;
    let program = body + epilogue();
    assert(program == program_of(e)->Some_0);
    assert(holds_at(program, 0, body));
    lemma_emit_runs(e, 0, 2, program, 0, initial(), frame);
    let end = body.len() as int;
    assert(program[end] == load_length_instruction());
    assert(program[end + 1] == return_a_instruction());
    assert(program[end + 2] == drop_instruction());
    match outcome(e, initial(), frame) {
        Outcome::True(after) => {
            let loaded = State { a: length_of(frame), ..after };
            lemma_epilogue_steps(after, frame);
            lemma_epilogue_steps(loaded, frame);
            lemma_run_go(program, frame, end, after, loaded, 0);
        },
        Outcome::False(after) => {
            lemma_epilogue_steps(after, frame);
        },
        _ => {},
    }
}

/// Whether `computation` is one or more loads into A of a field of the
/// frame at a fixed offset, of the frame's length, or of an immediate: what
/// it leaves in A does not depend on the state it starts in.
pub open spec fn absolute(computation: Seq<Instruction>) -> bool {
    &&& computation.len() >= 1
    &&& forall|i: int|
        0 <= i < computation.len() ==> {
            let code = #[trigger] computation[i].code;
            code == 0x00 || code == 0x20 || code == 0x28 || code == 0x30 || code == 0x80
        }
}

/// Whether the computation of every condition of `e` is absolute.
pub open spec fn proper(e: Formula<ConditionView>) -> bool {
    forall|c: ConditionView| #[trigger] e.mentions(c) ==> absolute(c.computation)
}

/// Whether every load of condition `c` lies inside `frame`.
pub open spec fn loads_on(c: ConditionView, frame: Seq<u8>) -> bool {
    compute(c.computation, 0, initial(), frame) is Some
}

/// Whether condition `c` holds of `frame`: its loads lie inside the frame
/// and the value loaded last passes the comparison.
pub open spec fn holds_on(c: ConditionView, frame: Seq<u8>) -> bool {
    decide(c, initial(), frame) is True
}

/// The assignment that gives every condition its truth on `frame`.
pub open spec fn truth(frame: Seq<u8>) -> spec_fn(ConditionView) -> bool {
    |c: ConditionView| holds_on(c, frame)
}

/// Whether `e` holds of `frame`, read as a boolean expression over the
/// truth of its conditions.
pub open spec fn holds_of(e: Formula<ConditionView>, frame: Seq<u8>) -> bool {
    e.eval(truth(frame))
}

/// Whether `frame` is long enough for every load of every condition of
/// `e`.
pub open spec fn covered(e: Formula<ConditionView>, frame: Seq<u8>) -> bool {
    forall|c: ConditionView| #[trigger] e.mentions(c) ==> loads_on(c, frame)
}

/// An absolute computation fails in every state or in none, and leaves the
/// same value in A whatever state it starts in.
pub proof fn lemma_absolute(
    computation: Seq<Instruction>,
    i: int,
    s1: State,
    s2: State,
    frame: Seq<u8>,
)
    requires
        absolute(computation),
        0 <= i < computation.len(),
    ensures
        compute(computation, i, s1, frame) is Some == compute(computation, i, s2, frame) is Some,
        compute(computation, i, s1, frame) is Some ==> compute(
            computation,
            i,
            s1,
            frame,
        )->Some_0.a == compute(computation, i, s2, frame)->Some_0.a,
    decreases computation.len() - i,
{
    let ins = computation[i];
    let code = ins.code;
    assert(code == 0x00 || code == 0x20 || code == 0x28 || code == 0x30 || code == 0x80);
    reveal(step);
    match step(ins, s1, frame) {
        Effect::Go(next1, skip1) => {
            let next2 = step(ins, s2, frame)->Go_0;
            assert(next1.a == next2.a);
            if i + 1 < computation.len() {
                lemma_absolute(computation, i + 1, next1, next2, frame);
            }
        },
        _ => {},
    }
}

/// Absolute computations are made of loads: a proper expression is well
/// formed.
pub proof fn lemma_proper_well_formed(e: Formula<ConditionView>)
    requires
        proper(e),
    ensures
        well_formed(e),
{
    assert forall|c: ConditionView| e.mentions(c) implies straight(c.computation) by {
        assert(absolute(c.computation));
    }
}

/// Of an expression without constants whose computations are absolute, the
/// evaluation ends in true only where the expression holds of the frame, in
/// false only where it does not, never in an accept, and in a drop only
/// where the frame is too short for one of the loads.
pub proof fn lemma_outcome_matches(e: Formula<ConditionView>, s: State, frame: Seq<u8>)
    requires
        proper(e),
        e.const_free(),
    ensures
        match outcome(e, s, frame) {
            Outcome::True(_) => holds_of(e, frame),
            Outcome::False(_) => !holds_of(e, frame),
            Outcome::Accept => false,
            Outcome::Drop => !covered(e, frame),
        },
    decreases e,
{
    match e {
        Formula::Terminal(c) => {
            assert(e.mentions(c));
            lemma_absolute(c.computation, 0, s, initial(), frame);
        },
        Formula::Const(_) => {},
        Formula::Not(x) => {
            assert forall|c: ConditionView| x.mentions(c) implies absolute(c.computation) by {
                assert(e.mentions(c));
            }
            lemma_outcome_matches(*x, s, frame);
            if !covered(*x, frame) {
                let c = choose|c: ConditionView| x.mentions(c) && !loads_on(c, frame);
                assert(e.mentions(c));
            }
        },
        Formula::And(a, b) => {
            assert forall|c: ConditionView| a.mentions(c) || b.mentions(c) implies absolute(
                c.computation,
            ) by {
                assert(e.mentions(c));
            }
            lemma_outcome_matches(*a, s, frame);
            if !covered(*a, frame) {
                let c = choose|c: ConditionView| a.mentions(c) && !loads_on(c, frame);
                assert(e.mentions(c));
            }
            match outcome(*a, s, frame) {
                Outcome::True(after) => {
                    lemma_outcome_matches(*b, after, frame);
                    if !covered(*b, frame) {
                        let c = choose|c: ConditionView| b.mentions(c) && !loads_on(c, frame);
                        assert(e.mentions(c));
                    }
                },
                _ => {},
            }
        },
        Formula::Or(a, b) => {
            assert forall|c: ConditionView| a.mentions(c) || b.mentions(c) implies absolute(
                c.computation,
            ) by {
                assert(e.mentions(c));
            }
            lemma_outcome_matches(*a, s, frame);
            if !covered(*a, frame) {
                let c = choose|c: ConditionView| a.mentions(c) && !loads_on(c, frame);
                assert(e.mentions(c));
            }
            match outcome(*a, s, frame) {
                Outcome::False(after) => {
                    lemma_outcome_matches(*b, after, frame);
                    if !covered(*b, frame) {
                        let c = choose|c: ConditionView| b.mentions(c) && !loads_on(c, frame);
                        assert(e.mentions(c));
                    }
                },
                _ => {},
            }
        },
    }
}

/// What the program of an expression means, where the expression is a bare
/// constant or holds none and its computations are absolute: the program
/// keeps the whole frame or nothing; it keeps something only where the
/// expression holds of the frame; and where the frame is long enough for
/// every load, it keeps the whole frame exactly where the expression holds.
pub proof fn theorem_program_meaning(e: Formula<ConditionView>, frame: Seq<u8>)
    requires
        proper(e),
        e is Const || e.const_free(),
        program_of(e) is Some,
    ensures
        keeps(program_of(e)->Some_0, frame) == 0 || keeps(program_of(e)->Some_0, frame)
            == length_of(frame),
        keeps(program_of(e)->Some_0, frame) != 0 ==> holds_of(e, frame),
        covered(e, frame) && holds_of(e, frame) ==> keeps(program_of(e)->Some_0, frame)
            == length_of(frame),
{
    lemma_proper_well_formed(e);
    theorem_program_runs(e, frame);
    if e.const_free() {
        lemma_outcome_matches(e, initial(), frame);
    }
}

} // verus!
