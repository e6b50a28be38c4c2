use bs_filter::cbpf::{
    contradiction, jump, load_u16_at, load_u16_at_x_offset, load_u16_from_m_offset, load_u32_at,
    load_u8_at, load_u8_into_x_from_packet_at, return_sequence, store_a_in_m_at, teotology,
    Comparison, Instruction, SocketFilter, SocketFilterProgram,
};
use bs_filter::{instructions_to_program, BsError, Filter, Program};

#[test]
fn instruction_constructors() {
    let ins = SocketFilter::new(0x15, 1, 2, 3);
    assert_eq!((ins.code, ins.jt, ins.jf, ins.k), (0x15, 1, 2, 3));
    let bare = SocketFilter::from_code(0x16);
    assert_eq!((bare.code, bare.jt, bare.jf, bare.k), (0x16, 0, 0, 0));
    assert_eq!(bare, Instruction::new(0x16, 0, 0, 0));
}

#[test]
fn builders_emit_the_opcodes() {
    assert_eq!(load_u8_at(7), vec![Instruction::new(0x30, 0, 0, 7)]);
    assert_eq!(load_u16_at(12), vec![Instruction::new(0x28, 0, 0, 12)]);
    assert_eq!(load_u32_at(26), vec![Instruction::new(0x20, 0, 0, 26)]);
    assert_eq!(load_u16_at_x_offset(14), vec![Instruction::new(0x48, 0, 0, 14)]);
    assert_eq!(load_u8_into_x_from_packet_at(14), vec![Instruction::new(0xb1, 0, 0, 14)]);
    assert_eq!(load_u16_from_m_offset(3), vec![Instruction::new(0x60, 0, 0, 3)]);
    assert_eq!(store_a_in_m_at(3), vec![Instruction::new(0x02, 0, 0, 3)]);
    assert_eq!(
        teotology(),
        vec![Instruction::new(0x80, 0, 0, 0), Instruction::new(0x16, 0, 0, 0)]
    );
    assert_eq!(contradiction(), vec![Instruction::new(0x06, 0, 0, 0)]);
}

#[test]
fn jump_encodes_the_comparison() {
    assert_eq!(jump(Comparison::Always, 0, 9, 0), vec![Instruction::new(0x05, 9, 0, 0)]);
    assert_eq!(jump(Comparison::Equal, 0x800, 0, 1), vec![Instruction::new(0x15, 0, 1, 0x800)]);
    assert_eq!(jump(Comparison::GreaterThan, 5, 1, 2), vec![Instruction::new(0x25, 1, 2, 5)]);
    assert_eq!(jump(Comparison::GreaterEqual, 5, 1, 2), vec![Instruction::new(0x35, 1, 2, 5)]);
    assert_eq!(jump(Comparison::AndMask, 0x1fff, 255, 0), vec![Instruction::new(0x45, 255, 0, 0x1fff)]);
    assert_eq!(jump(Comparison::Unknown, 1, 0, 0), vec![Instruction::new(0x45, 0, 0, 1)]);
}

#[test]
fn comparison_bits() {
    assert_eq!(Comparison::Always.code(), 0x00);
    assert_eq!(Comparison::Equal.code(), 0x10);
    assert_eq!(Comparison::GreaterThan.code(), 0x20);
    assert_eq!(Comparison::GreaterEqual.code(), 0x30);
    assert_eq!(Comparison::AndMask.code(), 0x40);
    assert_eq!(Comparison::from_u8(0x00), Comparison::Always);
    assert_eq!(Comparison::from_u8(0x10), Comparison::Equal);
    assert_eq!(Comparison::from_u8(0x20), Comparison::GreaterThan);
    assert_eq!(Comparison::from_u8(0x30), Comparison::GreaterEqual);
    assert_eq!(Comparison::from_u8(0x40), Comparison::AndMask);
    assert_eq!(Comparison::from_u8(0x50), Comparison::Unknown);
    assert_eq!(Comparison::from_u8(0x11), Comparison::Unknown);
    assert_eq!(Comparison::from(0x10), Comparison::Equal);
    assert_eq!(Comparison::from(0x40), Comparison::AndMask);
    assert_eq!(Comparison::from(0xff), Comparison::Unknown);
}

#[test]
fn return_sequence_is_the_epilogue_backwards() {
    let (instructions, jt, jf) = return_sequence();
    assert_eq!(
        instructions,
        vec![
            Instruction::new(0x06, 0, 0, 0),
            Instruction::new(0x16, 0, 0, 0),
            Instruction::new(0x80, 0, 0, 0),
        ]
    );
    assert_eq!((jt, jf), (0, 2));
}

#[test]
fn program_from_vector() {
    let program = SocketFilterProgram::from_vector(teotology());
    assert_eq!(program.len(), 2);
    assert_eq!(program.instructions(), &teotology());
    let copy = program.clone();
    assert_eq!(copy.instructions(), program.instructions());
}

#[test]
fn dump_lists_the_fields_in_decimal() {
    let program = SocketFilterProgram::from_vector(vec![
        Instruction::new(0x28, 0, 0, 12),
        Instruction::new(0x15, 0, 2, 0x0800),
        Instruction::new(0x06, 0, 0, 4294967295),
    ]);
    assert_eq!(program.to_dump(), "len: 3\n40 0 0 12,21 0 2 2048,6 0 0 4294967295");
    let two = SocketFilterProgram::from_vector(vec![
        SocketFilter::new(0x28, 0, 0, 12),
        SocketFilter::new(0x06, 0, 0, 0),
    ]);
    assert_eq!(two.to_dump(), "len: 2\n40 0 0 12,6 0 0 0");
    let one = SocketFilterProgram::from_vector(vec![SocketFilter::new(0x06, 0, 0, 0)]);
    assert_eq!(one.to_dump(), "len: 1\n6 0 0 0");
    let empty = SocketFilterProgram::from_vector(vec![]);
    assert_eq!(empty.to_dump(), "len: 0\n");
}

#[test]
fn at_most_65535_instructions_make_a_program() {
    let full = vec![Instruction::from_code(0x06); 65535];
    let program = instructions_to_program(full.clone()).expect("fits");
    assert_eq!(program.len(), 65535);
    assert_eq!(program.instructions(), &full);
    let over = vec![Instruction::from_code(0x06); 65536];
    assert_eq!(instructions_to_program(over.clone()).err(), Some(BsError::FilterProgramOverflow));
    assert_eq!(Program::new(over.clone()).build().err(), Some(BsError::FilterProgramOverflow));
    assert_eq!(Filter::from_vec(over).build().err(), Some(BsError::FilterProgramOverflow));
    assert_eq!(Program::new(teotology()).build().expect("fits").instructions(), &teotology());
    assert_eq!(Filter::from_vec(teotology()).build().expect("fits").len(), 2);
    assert_eq!(Filter::from_vec(teotology()).into_vec(), teotology());
}

#[test]
fn error_message() {
    assert_eq!(BsError::FilterProgramOverflow.message(), "Filter program size exceeded max u16");
}
