//! What holds of every compiled program.
//!
//! Compiling simplifies a predicate with an outside crate before code is
//! generated. What that simplification is relied on for is
//! [`Formula::simplified_faithfully`]; [`crate::Predicate::compile`]
//! establishes it for the predicate it compiles, and the laws about compiled
//! programs ask for it of one of the predicates they speak of.
use crate::cbpf::{drop_instruction, Comparison, Instruction};
use crate::codegen::{accept_sequence, emit, epilogue, program_of};
use crate::condition::ConditionView;
use crate::formula::{lemma_atoms_into, lemma_atoms_into_known, Formula};
use crate::machine::{keeps, length_of};
use crate::predicate::lemma_same_simplified;
use crate::semantics::{
    absolute, covered, holds_of, lemma_proper_well_formed, loads_on, proper,
    theorem_program_meaning, theorem_program_runs, truth,
};
use vstd::prelude::*;

verus! {

/// The program that compiling `p` yields: the program of its simplified
/// form. `None` where compiling fails.
pub open spec fn compiled(p: Formula<ConditionView>) -> Option<Seq<Instruction>> {
    program_of(p.simplified())
}

/// Whether the simplifier did for `p` what it is relied on for: see
/// [`Formula::simplified_faithfully`].
pub open spec fn simplified_faithfully(p: Formula<ConditionView>) -> bool {
    p.simplified_faithfully()
}

/// `!a`.
pub open spec fn not(a: Formula<ConditionView>) -> Formula<ConditionView> {
    Formula::Not(Box::new(a))
}

/// `a & b`.
pub open spec fn and(a: Formula<ConditionView>, b: Formula<ConditionView>) -> Formula<
    ConditionView,
> {
    Formula::And(Box::new(a), Box::new(b))
}

/// `a | b`.
pub open spec fn or(a: Formula<ConditionView>, b: Formula<ConditionView>) -> Formula<
    ConditionView,
> {
    Formula::Or(Box::new(a), Box::new(b))
}

/// What holds of every condition of `a` and `b` holds of every condition
/// of `a & b` and of `a | b`.
pub proof fn lemma_pair_parts(
    a: Formula<ConditionView>,
    b: Formula<ConditionView>,
    frame: Seq<u8>,
)
    ensures
        proper(a) && proper(b) ==> proper(and(a, b)) && proper(or(a, b)),
        covered(a, frame) && covered(b, frame) ==> covered(and(a, b), frame) && covered(
            or(a, b),
            frame,
        ),
{
    assert forall|c: ConditionView| #[trigger] and(a, b).mentions(c) implies a.mentions(c)
        || b.mentions(c) by {}
    assert forall|c: ConditionView| #[trigger] or(a, b).mentions(c) implies a.mentions(c)
        || b.mentions(c) by {}
}

/// A compiled program keeps the whole frame or nothing. It keeps something
/// only where the predicate holds of the frame, and it keeps the whole frame
/// wherever the predicate holds and the frame is long enough for every load.
/// A predicate that holds whatever its conditions say keeps every frame, and
/// one that cannot hold keeps none.
pub proof fn theorem_compiled(p: Formula<ConditionView>, frame: Seq<u8>)
    requires
        proper(p),
        simplified_faithfully(p),
        compiled(p) is Some,
    ensures
        keeps(compiled(p)->Some_0, frame) == 0 || keeps(compiled(p)->Some_0, frame) == length_of(
            frame,
        ),
        keeps(compiled(p)->Some_0, frame) != 0 ==> holds_of(p, frame),
        covered(p, frame) && holds_of(p, frame) ==> keeps(compiled(p)->Some_0, frame) == length_of(
            frame,
        ),
        p.valid() ==> keeps(compiled(p)->Some_0, frame) == length_of(frame),
        !p.satisfiable() ==> keeps(compiled(p)->Some_0, frame) == 0,
{
    let s = p.simplified();
    assert(proper(s)) by {
        assert forall|c: ConditionView| s.mentions(c) implies absolute(c.computation) by {
            assert(p.mentions(c));
        }
    }
    assert(covered(p, frame) ==> covered(s, frame)) by {
        if covered(p, frame) {
            assert forall|c: ConditionView| s.mentions(c) implies loads_on(c, frame) by {
                assert(p.mentions(c));
            }
        }
    }
    assert(holds_of(s, frame) == holds_of(p, frame)) by {
        assert(s.eval(truth(frame)) == p.eval(truth(frame)));
    }
    theorem_program_meaning(s, frame);
    lemma_proper_well_formed(s);
    theorem_program_runs(s, frame);
}

/// Two predicates with the same value under every assignment of their
/// conditions, and the same conditions in the same order, compile alike,
/// once one of them has been compiled.
pub proof fn lemma_compile_alike(p: Formula<ConditionView>, q: Formula<ConditionView>)
    requires
        simplified_faithfully(p) || simplified_faithfully(q),
        p.atoms() == q.atoms(),
        p.equivalent(q),
    ensures
        p.simplified() == q.simplified(),
        compiled(p) == compiled(q),
{
    if simplified_faithfully(p) {
        lemma_same_simplified(p, q);
    } else {
        assert(q.equivalent(p));
        lemma_same_simplified(q, p);
    }
}

/// De Morgan: `!(a & b)` and `!a | !b` compile to the same program, or
/// both fail, so that they keep the same of every frame.
pub proof fn law_de_morgan(a: Formula<ConditionView>, b: Formula<ConditionView>)
    requires
        simplified_faithfully(not(and(a, b))) || simplified_faithfully(or(not(a), not(b))),
    ensures
        compiled(not(and(a, b))) == compiled(or(not(a), not(b))),
{
    let p = not(and(a, b));
    let q = or(not(a), not(b));
    let none = Seq::<ConditionView>::empty();
    assert(p.atoms() == q.atoms()) by {
        assert(p.atoms_into(none) == and(a, b).atoms_into(none));
        assert(and(a, b).atoms_into(none) == b.atoms_into(a.atoms_into(none)));
        assert(not(a).atoms_into(none) == a.atoms_into(none));
        assert(not(b).atoms_into(a.atoms_into(none)) == b.atoms_into(a.atoms_into(none)));
        assert(q.atoms_into(none) == not(b).atoms_into(not(a).atoms_into(none)));
    }
    assert forall|env: spec_fn(ConditionView) -> bool| p.eval(env) == q.eval(env) by {
        assert(and(a, b).eval(env) == (a.eval(env) && b.eval(env)));
        assert(not(a).eval(env) == !a.eval(env));
        assert(not(b).eval(env) == !b.eval(env));
    }
    lemma_compile_alike(p, q);
}

/// De Morgan, for the code generator alone: it emits the same instructions
/// for `!(a & b)` and for `!a | !b`.
pub proof fn law_de_morgan_code(
    a: Formula<ConditionView>,
    b: Formula<ConditionView>,
    jt: nat,
    jf: nat,
)
    ensures
        emit(not(and(a, b)), jt, jf) == emit(or(not(a), not(b)), jt, jf),
{
    assert(emit(not(and(a, b)), jt, jf) == emit(and(a, b), jf, jt));
    assert(emit(not(b), jt, jf) == emit(b, jf, jt));
    match emit(b, jf, jt) {
        None => {},
        Some(second) => {
            assert(emit(not(a), jt + second.len(), 0) == emit(a, 0, jt + second.len()));
        },
    }
}

/// Double negation: `!!p` and `p` compile to the same program, or both
/// fail, so that they keep the same of every frame.
pub proof fn law_double_negation(p: Formula<ConditionView>)
    requires
        simplified_faithfully(not(not(p))) || simplified_faithfully(p),
    ensures
        compiled(not(not(p))) == compiled(p),
{
    let q = not(not(p));
    let none = Seq::<ConditionView>::empty();
    assert(q.atoms() == p.atoms()) by {
        assert(q.atoms_into(none) == not(p).atoms_into(none));
        assert(not(p).atoms_into(none) == p.atoms_into(none));
    }
    assert forall|env: spec_fn(ConditionView) -> bool| q.eval(env) == p.eval(env) by {
        assert(not(p).eval(env) == !p.eval(env));
    }
    lemma_compile_alike(q, p);
}

/// Double negation, for the code generator alone: it emits the same
/// instructions for `!!p` and for `p`.
pub proof fn law_double_negation_code(p: Formula<ConditionView>, jt: nat, jf: nat)
    ensures
        emit(not(not(p)), jt, jf) == emit(p, jt, jf),
{
    assert(emit(not(not(p)), jt, jf) == emit(not(p), jf, jt));
}

/// Idempotence of `&`: `p & p` and `p` compile to the same program, or
/// both fail, so that they keep the same of every frame.
pub proof fn law_and_idempotent(p: Formula<ConditionView>)
    requires
        simplified_faithfully(and(p, p)) || simplified_faithfully(p),
    ensures
        compiled(and(p, p)) == compiled(p),
{
    let q = and(p, p);
    let none = Seq::<ConditionView>::empty();
    assert(q.atoms() == p.atoms()) by {
        lemma_atoms_into(p, none);
        lemma_atoms_into_known(p, p.atoms());
        assert(q.atoms_into(none) == p.atoms_into(p.atoms_into(none)));
    }
    assert forall|env: spec_fn(ConditionView) -> bool| q.eval(env) == p.eval(env) by {}
    lemma_compile_alike(q, p);
}

/// Idempotence of `|`: `p | p` and `p` compile to the same program, or
/// both fail, so that they keep the same of every frame.
pub proof fn law_or_idempotent(p: Formula<ConditionView>)
    requires
        simplified_faithfully(or(p, p)) || simplified_faithfully(p),
    ensures
        compiled(or(p, p)) == compiled(p),
{
    let q = or(p, p);
    let none = Seq::<ConditionView>::empty();
    assert(q.atoms() == p.atoms()) by {
        lemma_atoms_into(p, none);
        lemma_atoms_into_known(p, p.atoms());
        assert(q.atoms_into(none) == p.atoms_into(p.atoms_into(none)));
    }
    assert forall|env: spec_fn(ConditionView) -> bool| q.eval(env) == p.eval(env) by {}
    lemma_compile_alike(q, p);
}

/// A predicate that is a single condition compiles to the condition's
/// computation, its jump with the distances 0 and 2, and the epilogue.
pub proof fn law_single_condition(c: ConditionView)
    requires
        simplified_faithfully(Formula::Terminal(c)),
    ensures
        Formula::Terminal(c).simplified() == Formula::Terminal(c),
        compiled(Formula::Terminal(c)) == if c.computation.len() + 4 <= 65535 {
            Some(c.code(0, 2) + epilogue())
        } else {
            None
        },
{
    assert(emit(Formula::Terminal(c), 0, 2) == Some(c.code(0, 2)));
}

/// A predicate that no assignment of its conditions satisfies compiles,
/// and its program keeps nothing of any frame: `false` from
/// [`crate::Predicate::satisfiable`] is a certificate.
pub proof fn law_unsatisfiable_keeps_nothing(p: Formula<ConditionView>, frame: Seq<u8>)
    requires
        simplified_faithfully(p),
        !p.satisfiable(),
    ensures
        compiled(p) == Some(seq![drop_instruction()] + epilogue()),
        keeps(compiled(p)->Some_0, frame) == 0,
{
    let s = p.simplified();
    assert(s == Formula::<ConditionView>::Const(false));
    assert(emit(s, 0, 2) == Some(seq![drop_instruction()]));
    theorem_program_runs(s, frame);
}

/// A predicate that every assignment of its conditions satisfies compiles,
/// and its program keeps all of every frame.
pub proof fn law_valid_keeps_everything(p: Formula<ConditionView>, frame: Seq<u8>)
    requires
        simplified_faithfully(p),
        p.valid(),
    ensures
        compiled(p) == Some(accept_sequence() + epilogue()),
        keeps(compiled(p)->Some_0, frame) == length_of(frame),
{
    let s = p.simplified();
    assert(s == Formula::<ConditionView>::Const(true));
    assert(emit(s, 0, 2) == Some(accept_sequence()));
    theorem_program_runs(s, frame);
}

/// Short circuit: `false & p` compiles, and its program keeps nothing of
/// any frame.
pub proof fn law_false_and(p: Formula<ConditionView>, frame: Seq<u8>)
    requires
        simplified_faithfully(and(Formula::Const(false), p)),
    ensures
        compiled(and(Formula::Const(false), p)) is Some,
        keeps(compiled(and(Formula::Const(false), p))->Some_0, frame) == 0,
{
    let q = and(Formula::Const(false), p);
    assert(!q.satisfiable()) by {
        assert forall|env: spec_fn(ConditionView) -> bool| !q.eval(env) by {
            assert(!Formula::<ConditionView>::Const(false).eval(env));
        }
    }
    law_unsatisfiable_keeps_nothing(q, frame);
}

/// Short circuit: `true | p` compiles, and its program keeps all of every
/// frame.
pub proof fn law_true_or(p: Formula<ConditionView>, frame: Seq<u8>)
    requires
        simplified_faithfully(or(Formula::Const(true), p)),
    ensures
        compiled(or(Formula::Const(true), p)) is Some,
        keeps(compiled(or(Formula::Const(true), p))->Some_0, frame) == length_of(frame),
{
    let q = or(Formula::Const(true), p);
    assert(q.valid()) by {
        assert forall|env: spec_fn(ConditionView) -> bool| q.eval(env) by {
            assert(Formula::<ConditionView>::Const(true).eval(env));
        }
    }
    law_valid_keeps_everything(q, frame);
}

/// The constant `false` is not satisfiable.
pub proof fn law_false_unsatisfiable<T>()
    ensures
        !Formula::<T>::Const(false).satisfiable(),
{
    assert forall|env: spec_fn(T) -> bool| !Formula::<T>::Const(false).eval(env) by {}
}

/// The constant `true` is satisfiable.
pub proof fn law_true_satisfiable<T>()
    ensures
        Formula::<T>::Const(true).satisfiable(),
{
    let env = |t: T| true;
    assert(Formula::<T>::Const(true).eval(env));
}

/// `p & !p` is not satisfiable.
pub proof fn law_contradiction_unsatisfiable<T>(p: Formula<T>)
    ensures
        !Formula::And(Box::new(p), Box::new(Formula::Not(Box::new(p)))).satisfiable(),
{
    let q = Formula::And(Box::new(p), Box::new(Formula::Not(Box::new(p))));
    assert forall|env: spec_fn(T) -> bool| !q.eval(env) by {
        assert(Formula::Not(Box::new(p)).eval(env) == !p.eval(env));
    }
}

/// Whether `code` is an opcode of the class of jumps.
pub open spec fn is_jump(code: u16) -> bool {
    code & 0x07 == 0x05
}

/// Whether `computation` holds no instruction of the class of jumps.
pub open spec fn no_jumps(computation: Seq<Instruction>) -> bool {
    forall|i: int| 0 <= i < computation.len() ==> !is_jump(#[trigger] computation[i].code)
}

/// Whether no computation of a condition of `e` holds an instruction of
/// the class of jumps.
pub open spec fn jump_free(e: Formula<ConditionView>) -> bool {
    forall|c: ConditionView| #[trigger] e.mentions(c) ==> no_jumps(c.computation)
}

/// Which of the opcodes that the library emits are of the class of jumps:
/// those of the comparisons, and none of the loads, stores and returns.
pub proof fn lemma_classes()
    ensures
        forall|comparison: Comparison| is_jump(#[trigger] comparison.jump_code()),
        !is_jump(0x80),
        !is_jump(0x16),
        !is_jump(0x06),
        !is_jump(0x20),
        !is_jump(0x28),
        !is_jump(0x30),
        !is_jump(0x48),
        !is_jump(0x60),
        !is_jump(0x02),
        !is_jump(0xb1),
{
    assert(0x05u16 & 0x07 == 0x05 && 0x15u16 & 0x07 == 0x05 && 0x25u16 & 0x07 == 0x05 && 0x35u16
        & 0x07 == 0x05 && 0x45u16 & 0x07 == 0x05 && 0x80u16 & 0x07 != 0x05 && 0x16u16 & 0x07
        != 0x05 && 0x06u16 & 0x07 != 0x05 && 0x20u16 & 0x07 != 0x05 && 0x28u16 & 0x07 != 0x05
        && 0x30u16 & 0x07 != 0x05 && 0x48u16 & 0x07 != 0x05 && 0x60u16 & 0x07 != 0x05 && 0x02u16
        & 0x07 != 0x05 && 0xb1u16 & 0x07 != 0x05) by (bit_vector);
    assert forall|comparison: Comparison| is_jump(#[trigger] comparison.jump_code()) by {
        match comparison {
            Comparison::Always => {},
            Comparison::Equal => {},
            Comparison::GreaterThan => {},
            Comparison::GreaterEqual => {},
            Comparison::AndMask => {},
            Comparison::Unknown => {},
        }
    }
}

/// Whether every jump of `code` lands at most `slack` instructions behind
/// the end of `code`.
pub open spec fn lands_within(code: Seq<Instruction>, slack: nat) -> bool {
    forall|i: int|
        0 <= i < code.len() && is_jump(#[trigger] code[i].code) ==> i + 1 + code[i].jt
            <= code.len() + slack && i + 1 + code[i].jf <= code.len() + slack
}

/// The jumps that the code generator emits for an expression land at most
/// `jt` or `jf` instructions behind the expression's code.
pub proof fn lemma_emit_lands(e: Formula<ConditionView>, jt: nat, jf: nat)
    requires
        jump_free(e),
        emit(e, jt, jf) is Some,
    ensures
        lands_within(emit(e, jt, jf)->Some_0, if jt >= jf {
            jt
        } else {
            jf
        }),
    decreases e,
{
    let code = emit(e, jt, jf)->Some_0;
    let slack = if jt >= jf {
        jt
    } else {
        jf
    };
    lemma_classes();
    match e {
        Formula::Terminal(c) => {
            assert(e.mentions(c));
            assert(no_jumps(c.computation));
            assert forall|i: int| 0 <= i < code.len() && is_jump(#[trigger] code[i].code) implies i
                + 1 + code[i].jt <= code.len() + slack && i + 1 + code[i].jf <= code.len()
                + slack by {
                if i < c.computation.len() {
                    assert(code[i] == c.computation[i]);
                }
            }
        },
        Formula::Const(value) => {
            assert forall|i: int| 0 <= i < code.len() implies !is_jump(#[trigger] code[i].code) by {
                if value {
                    assert(code == accept_sequence());
                } else {
                    assert(code == seq![drop_instruction()]);
                }
            }
        },
        Formula::Not(x) => {
            assert forall|c: ConditionView| #[trigger] x.mentions(c) implies no_jumps(
                c.computation,
            ) by {
                assert(e.mentions(c));
            }
            lemma_emit_lands(*x, jf, jt);
        },
        Formula::And(a, b) => {
            assert forall|c: ConditionView| #[trigger] a.mentions(c) implies no_jumps(
                c.computation,
            ) by {
                assert(e.mentions(c));
            }
            assert forall|c: ConditionView| #[trigger] b.mentions(c) implies no_jumps(
                c.computation,
            ) by {
                assert(e.mentions(c));
            }
            let second = emit(*b, jt, jf)->Some_0;
            let first = emit(*a, 0, jf + second.len())->Some_0;
            lemma_emit_lands(*b, jt, jf);
            lemma_emit_lands(*a, 0, jf + second.len());
            assert forall|i: int| 0 <= i < code.len() && is_jump(#[trigger] code[i].code) implies i
                + 1 + code[i].jt <= code.len() + slack && i + 1 + code[i].jf <= code.len()
                + slack by {
                if i < first.len() {
                    assert(code[i] == first[i]);
                } else {
                    assert(code[i] == second[i - first.len()]);
                }
            }
        },
        Formula::Or(a, b) => {
            assert forall|c: ConditionView| #[trigger] a.mentions(c) implies no_jumps(
                c.computation,
            ) by {
                assert(e.mentions(c));
            }
            assert forall|c: ConditionView| #[trigger] b.mentions(c) implies no_jumps(
                c.computation,
            ) by {
                assert(e.mentions(c));
            }
            let second = emit(*b, jt, jf)->Some_0;
            let first = emit(*a, jt + second.len(), 0)->Some_0;
            lemma_emit_lands(*b, jt, jf);
            lemma_emit_lands(*a, jt + second.len(), 0);
            assert forall|i: int| 0 <= i < code.len() && is_jump(#[trigger] code[i].code) implies i
                + 1 + code[i].jt <= code.len() + slack && i + 1 + code[i].jf <= code.len()
                + slack by {
                if i < first.len() {
                    assert(code[i] == first[i]);
                } else {
                    assert(code[i] == second[i - first.len()]);
                }
            }
        },
    }
}

/// Every jump of the program of an expression lands inside the program,
/// provided that no computation of the expression holds a jump of its own;
/// and the program ends with the epilogue.
pub proof fn law_jumps_land(e: Formula<ConditionView>)
    requires
        jump_free(e),
        program_of(e) is Some,
    ensures
        lands_within(program_of(e)->Some_0, 0),
        program_of(e)->Some_0.len() >= 3,
        program_of(e)->Some_0.subrange(
            program_of(e)->Some_0.len() - 3,
            program_of(e)->Some_0.len() as int,
        ) == epilogue(),
        program_of(e)->Some_0.len() <= 65535,
{
    let body = emit(e, 0, 2)->Some_0;
    let program = program_of(e)->Some_0;
    lemma_emit_lands(e, 0, 2);
    lemma_classes();
    assert forall|i: int| 0 <= i < program.len() && is_jump(#[trigger] program[i].code) implies i
        + 1 + program[i].jt <= program.len() && i + 1 + program[i].jf <= program.len() by {
        if i < body.len() {
            assert(program[i] == body[i]);
        } else {
            assert(program[i] == epilogue()[i - body.len()]);
        }
    }
    assert(program.subrange(program.len() - 3, program.len() as int) =~= epilogue());
}

} // verus!
