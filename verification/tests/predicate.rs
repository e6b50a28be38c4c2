use bs_filter::cbpf::{load_u16_at, load_u32_at, load_u8_at, Comparison, Instruction};
use bs_filter::codegen::generate;
use bs_filter::machine::execute;
use bs_filter::{BsError, Condition, Formula, Predicate};

fn atom(offset: u32, value: u32) -> Predicate {
    Predicate::terminal(Condition::new(load_u8_at(offset), Comparison::Equal, value))
}

fn epilogue() -> Vec<Instruction> {
    vec![
        Instruction::new(0x80, 0, 0, 0),
        Instruction::new(0x16, 0, 0, 0),
        Instruction::new(0x06, 0, 0, 0),
    ]
}

fn frames() -> Vec<Vec<u8>> {
    vec![
        vec![],
        vec![0],
        vec![1],
        vec![1, 2],
        vec![1, 7],
        vec![9, 2, 3],
        vec![1, 2, 3],
        vec![1, 2, 4, 8],
        vec![0, 0, 0, 0, 0, 0, 0, 0],
    ]
}

fn same_on_all_frames(p: Predicate, q: Predicate) {
    let p = p.compile().expect("fits").into_vec();
    let q = q.compile().expect("fits").into_vec();
    assert_eq!(p, q);
    for frame in frames() {
        assert_eq!(execute(&p, &frame), execute(&q, &frame));
    }
}

#[test]
fn simple_and() {
    let true_and_false = Predicate::const_false() & Predicate::const_true();
    assert!(!true_and_false.satisfiable());
}

#[test]
fn simple_or() {
    let true_or_false = Predicate::const_false() | Predicate::const_true();
    assert!(true_or_false.satisfiable());
}

#[test]
fn simple_not() {
    let not_true = !Predicate::const_true();
    assert!(!not_true.satisfiable());
    let not_false = !Predicate::const_false();
    assert!(not_false.satisfiable());
}

#[test]
fn complex() {
    let complex =
        !(Predicate::const_true() & Predicate::const_false()) | Predicate::const_false();
    assert!(complex.satisfiable());
}

#[test]
fn constants_are_what_they_say() {
    assert!(!Predicate::const_false().satisfiable());
    assert!(Predicate::const_true().satisfiable());
}

#[test]
fn a_predicate_and_its_complement_cannot_both_hold() {
    let p = atom(0, 1) & !atom(0, 1);
    assert!(!p.satisfiable());
    let q = (atom(0, 1) | atom(1, 2)) & !(atom(0, 1) | atom(1, 2));
    assert!(!q.satisfiable());
}

#[test]
fn conditions_are_told_apart_by_what_they_hold() {
    // The same field against two values: taken to be independent.
    let p = atom(0, 1) & atom(0, 2);
    assert!(p.satisfiable());
    // The same offset and value, loaded with another width: another
    // condition.
    let wide = Predicate::terminal(Condition::new(load_u16_at(0), Comparison::Equal, 1));
    assert!((atom(0, 1) & !wide).satisfiable());
}

#[test]
fn operators_build_the_nodes() {
    let p = (atom(0, 1) & atom(1, 2)) | !atom(2, 3);
    let expected = Formula::Or(
        Box::new(Formula::And(
            Box::new(atom(0, 1).into_inner()),
            Box::new(atom(1, 2).into_inner()),
        )),
        Box::new(Formula::Not(Box::new(atom(2, 3).into_inner()))),
    );
    assert_eq!(p.into_inner(), expected);
}

#[test]
fn compile_single_terminal() {
    let p = Predicate::terminal(Condition::new(load_u16_at(12), Comparison::Equal, 0x0800));
    let program = p.compile().expect("fits").into_vec();
    assert_eq!(
        program,
        vec![
            Instruction::new(0x28, 0, 0, 12),
            Instruction::new(0x15, 0, 2, 0x0800),
            Instruction::new(0x80, 0, 0, 0),
            Instruction::new(0x16, 0, 0, 0),
            Instruction::new(0x06, 0, 0, 0),
        ]
    );
}

#[test]
fn compile_constants() {
    let accept = Predicate::const_true().compile().expect("fits").into_vec();
    let mut expected = vec![Instruction::new(0x80, 0, 0, 0), Instruction::new(0x16, 0, 0, 0)];
    expected.extend(epilogue());
    assert_eq!(accept, expected);
    let drop = Predicate::const_false().compile().expect("fits").into_vec();
    let mut expected = vec![Instruction::new(0x06, 0, 0, 0)];
    expected.extend(epilogue());
    assert_eq!(drop, expected);
}

#[test]
fn generate_threads_the_jump_distances() {
    // a & b: a false skips b and the accept; b false skips the accept.
    let p = atom(0, 1) & atom(1, 2);
    let program = generate(&p.into_inner()).expect("fits").into_vec();
    let mut expected = vec![
        Instruction::new(0x30, 0, 0, 0),
        Instruction::new(0x15, 0, 4, 1),
        Instruction::new(0x30, 0, 0, 1),
        Instruction::new(0x15, 0, 2, 2),
    ];
    expected.extend(epilogue());
    assert_eq!(program, expected);
    // a | b: a true skips b.
    let p = atom(0, 1) | atom(1, 2);
    let program = generate(&p.into_inner()).expect("fits").into_vec();
    let mut expected = vec![
        Instruction::new(0x30, 0, 0, 0),
        Instruction::new(0x15, 2, 0, 1),
        Instruction::new(0x30, 0, 0, 1),
        Instruction::new(0x15, 0, 2, 2),
    ];
    expected.extend(epilogue());
    assert_eq!(program, expected);
    // !a: the distances change places.
    let p = !atom(0, 1);
    let program = generate(&p.into_inner()).expect("fits").into_vec();
    let mut expected = vec![Instruction::new(0x30, 0, 0, 0), Instruction::new(0x15, 2, 0, 1)];
    expected.extend(epilogue());
    assert_eq!(program, expected);
}

#[test]
fn simplify_merges_terms() {
    // (a & b) | (a & !b) is a.
    let p = (atom(0, 1) & atom(1, 2)) | (atom(0, 1) & !atom(1, 2));
    assert_eq!(p.simplify(), atom(0, 1));
    // A predicate that is always true becomes the constant.
    let q = atom(0, 1) | !atom(0, 1);
    assert_eq!(q.simplify(), Predicate::const_true());
    let r = atom(0, 1) & !atom(0, 1);
    assert_eq!(r.simplify(), Predicate::const_false());
}

#[test]
fn every_compiled_program_ends_with_the_epilogue() {
    let predicates = vec![
        atom(0, 1),
        !atom(0, 1),
        atom(0, 1) & atom(1, 2),
        atom(0, 1) | (atom(1, 2) & !atom(2, 3)),
        Predicate::const_true(),
        Predicate::const_false(),
    ];
    for p in predicates {
        let program = p.compile().expect("fits").into_vec();
        assert!(program.len() >= 3);
        assert_eq!(program[program.len() - 3..].to_vec(), epilogue());
    }
}

#[test]
fn every_jump_lands_inside_the_program() {
    let p = (atom(0, 1) & atom(1, 2)) | (!atom(2, 3) & atom(3, 8)) | atom(4, 0);
    let program = p.compile().expect("fits").into_vec();
    for (i, ins) in program.iter().enumerate() {
        if ins.code & 0x07 == 0x05 {
            assert!(i + 1 + ins.jt as usize <= program.len());
            assert!(i + 1 + ins.jf as usize <= program.len());
        }
    }
}

#[test]
fn de_morgan() {
    same_on_all_frames(!(atom(0, 1) & atom(1, 2)), !atom(0, 1) | !atom(1, 2));
    let frame = vec![1, 2, 3];
    let p = (!(atom(0, 1) & atom(1, 2))).compile().expect("fits").into_vec();
    assert_eq!(execute(&p, &frame), 0);
    assert_eq!(execute(&p, &[1, 7]), 2);
}

#[test]
fn double_negation() {
    same_on_all_frames(!!atom(0, 1), atom(0, 1));
    same_on_all_frames(!!(atom(0, 1) | atom(1, 2)), atom(0, 1) | atom(1, 2));
}

#[test]
fn idempotence() {
    same_on_all_frames(atom(0, 1) & atom(0, 1), atom(0, 1));
    same_on_all_frames(atom(0, 1) | atom(0, 1), atom(0, 1));
    let p = || (atom(0, 1) & !atom(1, 2)) | atom(2, 4);
    same_on_all_frames(p() & p(), p());
    same_on_all_frames(p() | p(), p());
}

#[test]
fn laws_hold_where_compiling_fails_too() {
    let long = || {
        let mut p = atom(0, 0);
        for i in 1..200u32 {
            p = p & atom(i, i);
        }
        p
    };
    assert_eq!(long().compile().err(), Some(BsError::FilterProgramOverflow));
    assert_eq!((!!long()).compile().err(), Some(BsError::FilterProgramOverflow));
    assert_eq!((long() & long()).compile().err(), Some(BsError::FilterProgramOverflow));
    assert_eq!((long() | long()).compile().err(), Some(BsError::FilterProgramOverflow));
}

#[test]
fn laws_hold_for_computations_that_use_the_registers() {
    // X from the frame, a load relative to X, a store and a load of the
    // scratch slot: neither absolute nor free of faults on short frames.
    let indexed = || {
        Predicate::terminal(Condition::new(
            vec![
                Instruction::new(0xb1, 0, 0, 0),
                Instruction::new(0x48, 0, 0, 1),
                Instruction::new(0x02, 0, 0, 3),
                Instruction::new(0x60, 0, 0, 3),
            ],
            Comparison::GreaterThan,
            0x0100,
        ))
    };
    same_on_all_frames(!(indexed() & atom(0, 1)), !indexed() | !atom(0, 1));
    same_on_all_frames(!!indexed(), indexed());
    same_on_all_frames(indexed() & indexed(), indexed());
    same_on_all_frames(indexed() | indexed(), indexed());
    let program = indexed().compile().expect("fits").into_vec();
    assert_eq!(program.len(), 8);
    assert_eq!(program[4], Instruction::new(0x25, 0, 2, 0x0100));
    for (i, ins) in program.iter().enumerate() {
        if ins.code & 0x07 == 0x05 {
            assert!(i + 1 + ins.jt as usize <= program.len());
            assert!(i + 1 + ins.jf as usize <= program.len());
        }
    }
}

#[test]
fn a_single_condition_compiles_to_itself() {
    let mut computation = load_u8_at(3);
    computation.extend(load_u16_at(5));
    let p = Predicate::terminal(Condition::new(computation, Comparison::GreaterEqual, 9));
    assert_eq!(p.simplify(), p);
    let mut expected = vec![
        Instruction::new(0x30, 0, 0, 3),
        Instruction::new(0x28, 0, 0, 5),
        Instruction::new(0x35, 0, 2, 9),
    ];
    expected.extend(epilogue());
    assert_eq!(p.compile().expect("fits").into_vec(), expected);
}

#[test]
fn short_circuit() {
    let nothing = (Predicate::const_false() & atom(0, 1)).compile().expect("fits").into_vec();
    let everything = (Predicate::const_true() | atom(0, 1)).compile().expect("fits").into_vec();
    for frame in frames() {
        assert_eq!(execute(&nothing, &frame), 0);
        assert_eq!(execute(&everything, &frame), frame.len() as u32);
    }
}

#[test]
fn a_compiled_program_keeps_what_the_predicate_holds_of() {
    let p = (atom(0, 1) & atom(1, 2)) | atom(2, 4);
    let program = p.compile().expect("fits").into_vec();
    assert_eq!(execute(&program, &[1, 2, 3]), 3);
    assert_eq!(execute(&program, &[1, 7, 4]), 3);
    assert_eq!(execute(&program, &[9, 2, 4, 8]), 4);
    assert_eq!(execute(&program, &[1, 7, 3]), 0);
    assert_eq!(execute(&program, &[9, 9, 9]), 0);
}

#[test]
fn a_jump_over_more_than_255_instructions_is_refused() {
    // Each term is two instructions: 127 more terms lie between the first
    // test and the drop.
    let mut p = atom(0, 0);
    for i in 1..129u32 {
        p = p & atom(i, i);
    }
    assert_eq!(p.compile().err(), Some(BsError::FilterProgramOverflow));
    let mut q = atom(0, 0);
    for i in 1..127u32 {
        q = q & atom(i, i);
    }
    let program = q.compile().expect("fits").into_vec();
    assert_eq!(program.len(), 2 * 127 + 3);
    assert_eq!(program[1], Instruction::new(0x15, 0, 254, 0));
}

#[test]
fn a_program_of_more_than_65535_instructions_is_refused() {
    let mut computation = Vec::new();
    for _ in 0..65531 {
        computation.extend(load_u32_at(0));
    }
    let longest = Predicate::terminal(Condition::new(computation.clone(), Comparison::Equal, 0));
    let program = longest.compile().expect("fits").into_vec();
    assert_eq!(program.len(), 65535);
    computation.extend(load_u32_at(0));
    let too_long = Predicate::terminal(Condition::new(computation, Comparison::Equal, 0));
    assert_eq!(too_long.compile().err(), Some(BsError::FilterProgramOverflow));
}

#[test]
fn condition_build_is_the_jump_then_the_computation_backwards() {
    let mut computation = load_u8_at(3);
    computation.extend(load_u16_at(5));
    let condition = Condition::new(computation, Comparison::GreaterThan, 9);
    assert_eq!(
        condition.build(1, 2),
        vec![
            Instruction::new(0x25, 1, 2, 9),
            Instruction::new(0x28, 0, 0, 5),
            Instruction::new(0x30, 0, 0, 3),
        ]
    );
    assert_eq!(condition.comparison(), Comparison::GreaterThan);
    assert_eq!(condition.operand(), 9);
    assert_eq!(condition.computation().len(), 2);
    assert!(condition.same(&condition.clone()));
    assert!(!condition.same(&Condition::new(load_u8_at(3), Comparison::GreaterThan, 9)));
}
