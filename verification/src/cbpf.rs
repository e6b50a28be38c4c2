//! The classic BPF instruction record and the builders that emit single
//! operations.
use crate::consts::{
    BPF_A, BPF_ABS, BPF_B, BPF_H, BPF_IND, BPF_JMP, BPF_K, BPF_LD, BPF_LDX, BPF_LEN, BPF_MEM,
    BPF_MSH, BPF_RET, BPF_ST, BPF_W,
};
use vstd::prelude::*;

verus! {

/// One classic BPF instruction, laid out as the kernel's `sock_filter`.
///
/// `jt` and `jf` count whole instructions from the instruction after the
/// jump: an offset of 0 falls through to the next one.
#[derive(Debug, Default, Copy, Clone, Hash, Ord, PartialOrd, Eq, PartialEq, Structural)]
pub struct SocketFilter {
    pub code: u16,
    pub jt: u8,
    pub jf: u8,
    pub k: u32,
}

/// `sock_filter` alias
pub type Instruction = SocketFilter;

impl SocketFilter {
    /// Creates a new `SocketFilter` with the given parameters
    pub fn new(code: u16, jt: u8, jf: u8, k: u32) -> (ins: Self)
        ensures
            ins == (SocketFilter { code, jt, jf, k }),
    {
        Self { code, jt, jf, k }
    }

    /// Creates a new `SocketFilter` with the given `code`; `jt`, `jf` and
    /// `k` are 0.
    pub fn from_code(code: u16) -> (ins: Self)
        ensures
            ins == (SocketFilter { code, jt: 0, jf: 0, k: 0 }),
    {
        Self { code, jt: 0, jf: 0, k: 0 }
    }
}

/// Different kinds of comparisons to perform upon `BPF_JMP` instructions
#[derive(Copy, Clone, Debug, Ord, Eq, Hash, PartialEq, PartialOrd, Structural)]
pub enum Comparison {
    /// always true
    Always,
    /// true if operands equal
    Equal,
    /// true if the first operand is greater then the second
    GreaterThan,
    /// true if the first operand is greater or equal to the second
    GreaterEqual,
    /// true if the first operand bitmasked with second operand is greater then 0
    AndMask,
    /// Stands for any byte that encodes no comparison.
    Unknown,
}

impl Comparison {
    /// The jump-condition bits of this comparison, as they are OR-ed into
    /// an opcode. `Unknown` has the bits that follow `AndMask`.
    pub open spec fn bits(self) -> u8 {
        match self {
            Comparison::Always => 0x00,
            Comparison::Equal => 0x10,
            Comparison::GreaterThan => 0x20,
            Comparison::GreaterEqual => 0x30,
            Comparison::AndMask => 0x40,
            Comparison::Unknown => 0x41,
        }
    }

    /// The comparison that `value` encodes.
    pub open spec fn decode(value: u8) -> Comparison {
        if value == 0x00 {
            Comparison::Always
        } else if value == 0x10 {
            Comparison::Equal
        } else if value == 0x20 {
            Comparison::GreaterThan
        } else if value == 0x30 {
            Comparison::GreaterEqual
        } else if value == 0x40 {
            Comparison::AndMask
        } else {
            Comparison::Unknown
        }
    }

    /// The opcode of the jump that tests this comparison against an
    /// immediate: `BPF_JMP | bits | BPF_K`.
    pub open spec fn jump_code(self) -> u16 {
        match self {
            Comparison::Always => 0x05,
            Comparison::Equal => 0x15,
            Comparison::GreaterThan => 0x25,
            Comparison::GreaterEqual => 0x35,
            Comparison::AndMask => 0x45,
            Comparison::Unknown => 0x45,
        }
    }

    /// Whether accumulator value `a` passes this comparison against `k`.
    /// `Unknown` shares its jump opcode with `AndMask`, and so its meaning.
    pub open spec fn holds(self, a: u32, k: u32) -> bool {
        match self {
            Comparison::Always => true,
            Comparison::Equal => a == k,
            Comparison::GreaterThan => a > k,
            Comparison::GreaterEqual => a >= k,
            Comparison::AndMask => a & k != 0,
            Comparison::Unknown => a & k != 0,
        }
    }

    /// The jump-condition bits of this comparison.
    pub fn code(self) -> (bits: u8)
        ensures
            bits == self.bits(),
    {
        match self {
            Comparison::Always => 0x00,
            Comparison::Equal => 0x10,
            Comparison::GreaterThan => 0x20,
            Comparison::GreaterEqual => 0x30,
            Comparison::AndMask => 0x40,
            Comparison::Unknown => 0x41,
        }
    }

    /// Reads a comparison back from its jump-condition bits.
    pub fn from_u8(value: u8) -> (comparison: Comparison)
        ensures
            comparison == Comparison::decode(value),
    {
        if value == 0x00 {
            Comparison::Always
        } else if value == 0x10 {
            Comparison::Equal
        } else if value == 0x20 {
            Comparison::GreaterThan
        } else if value == 0x30 {
            Comparison::GreaterEqual
        } else if value == 0x40 {
            Comparison::AndMask
        } else {
            Comparison::Unknown
        }
    }
}

impl From<u8> for Comparison {
    fn from(value: u8) -> (comparison: Self) {
        Comparison::from_u8(value)
    }
}

impl vstd::std_specs::convert::FromSpecImpl<u8> for Comparison {
    open spec fn obeys_from_spec() -> bool {
        true
    }

    open spec fn from_spec(value: u8) -> Comparison {
        Comparison::decode(value)
    }
}

/// `RET #0`: drop the frame.
pub open spec fn drop_instruction() -> Instruction {
    SocketFilter { code: 0x06, jt: 0, jf: 0, k: 0 }
}

/// `RET A`: keep as many bytes as the accumulator says.
pub open spec fn return_a_instruction() -> Instruction {
    SocketFilter { code: 0x16, jt: 0, jf: 0, k: 0 }
}

/// `LD LEN`: load the frame's length into the accumulator.
pub open spec fn load_length_instruction() -> Instruction {
    SocketFilter { code: 0x80, jt: 0, jf: 0, k: 0 }
}

/// An instruction that only carries an opcode and an immediate.
pub open spec fn plain(code: u16, k: u32) -> Instruction {
    SocketFilter { code, jt: 0, jf: 0, k }
}

/// The conditional jump on `comparison` against `operand`.
pub open spec fn jump_instruction(comparison: Comparison, operand: u32, jt: u8, jf: u8)
    -> Instruction {
    SocketFilter { code: comparison.jump_code(), jt, jf, k: operand }
}

/// The opcode of a jump is the class of jumps, the bits of the comparison
/// and the immediate as the source of the operand, OR-ed together.
pub proof fn lemma_jump_code(comparison: Comparison)
    ensures
        comparison.jump_code() == BPF_JMP | (comparison.bits() as u16) | BPF_K,
{
    assert(0x05u16 | 0x00u16 | 0x00u16 == 0x05u16) by (bit_vector);
    assert(0x05u16 | 0x10u16 | 0x00u16 == 0x15u16) by (bit_vector);
    assert(0x05u16 | 0x20u16 | 0x00u16 == 0x25u16) by (bit_vector);
    assert(0x05u16 | 0x30u16 | 0x00u16 == 0x35u16) by (bit_vector);
    assert(0x05u16 | 0x40u16 | 0x00u16 == 0x45u16) by (bit_vector);
    assert(0x05u16 | 0x41u16 | 0x00u16 == 0x45u16) by (bit_vector);
}

/// Largest distance a jump can cover.
pub const MAX_JUMP: usize = 255;

pub(crate) fn drop_op() -> (ins: Instruction)
    ensures
        ins == drop_instruction(),
{
    assert(0x06u16 | 0x00u16 == 0x06u16) by (bit_vector);
    Instruction::new(BPF_RET | BPF_K, 0, 0, 0)
}

pub(crate) fn return_a_op() -> (ins: Instruction)
    ensures
        ins == return_a_instruction(),
{
    assert(0x06u16 | 0x10u16 == 0x16u16) by (bit_vector);
    Instruction::new(BPF_RET | BPF_A, 0, 0, 0)
}

pub(crate) fn load_length_op() -> (ins: Instruction)
    ensures
        ins == load_length_instruction(),
{
    assert(0x00u16 | 0x80u16 | 0x00u16 == 0x80u16) by (bit_vector);
    Instruction::new(BPF_LD | BPF_LEN | BPF_W, 0, 0, 0)
}

/// Generates a sequence of instructions that passes the entire packet.
pub fn teotology() -> (seq: Vec<Instruction>)
    ensures
        seq@ == seq![load_length_instruction(), return_a_instruction()],
{
    vec![load_length_op(), return_a_op()]
}

/// Generates a sequence of instructions that drops the packet.
pub fn contradiction() -> (seq: Vec<Instruction>)
    ensures
        seq@ == seq![drop_instruction()],
{
    vec![drop_op()]
}

/// The end of every compiled program, last instruction first, with the
/// distances from in front of it to where a frame is accepted and to where
/// it is dropped.
pub fn return_sequence() -> (end: (Vec<Instruction>, usize, usize))
    ensures
        end.0@ == seq![drop_instruction(), return_a_instruction(), load_length_instruction()],
        end.1 == 0,
        end.2 == 2,
{
    (vec![drop_op(), return_a_op(), load_length_op()], 0, 2)
}

/// Generates a sequence of instructions that implements a conditional jump.
pub fn jump(comparison: Comparison, operand: u32, jt: usize, jf: usize) -> (seq: Vec<Instruction>)
    requires
        jt <= MAX_JUMP,
        jf <= MAX_JUMP,
    ensures
        seq@ == seq![jump_instruction(comparison, operand, jt as u8, jf as u8)],
{
    let bits: u16 = comparison.code() as u16;
    proof {
        lemma_jump_code(comparison);
    }
    vec![Instruction::new(BPF_JMP | bits | BPF_K, jt as u8, jf as u8, operand)]
}

/// Generates a sequence of instructions that loads one octet from a given offset in the packet.
pub fn load_u8_at(offset: u32) -> (seq: Vec<Instruction>)
    ensures
        seq@ == seq![plain(0x30, offset)],
{
    assert(0x20u16 | 0x00u16 | 0x10u16 == 0x30u16) by (bit_vector);
    vec![Instruction::new(BPF_ABS | BPF_LD | BPF_B, 0, 0, offset)]
}

/// Generates a sequence of instructions that loads two octets from a given offset in the packet.
pub fn load_u16_at(offset: u32) -> (seq: Vec<Instruction>)
    ensures
        seq@ == seq![plain(0x28, offset)],
{
    assert(0x20u16 | 0x00u16 | 0x08u16 == 0x28u16) by (bit_vector);
    vec![Instruction::new(BPF_ABS | BPF_LD | BPF_H, 0, 0, offset)]
}

/// Generates a sequence of instructions that loads four octets from a given offset in the packet.
pub fn load_u32_at(offset: u32) -> (seq: Vec<Instruction>)
    ensures
        seq@ == seq![plain(0x20, offset)],
{
    assert(0x20u16 | 0x00u16 | 0x00u16 == 0x20u16) by (bit_vector);
    vec![Instruction::new(BPF_ABS | BPF_LD | BPF_W, 0, 0, offset)]
}

/// Store register A in M[offset]
pub fn store_a_in_m_at(offset: u32) -> (seq: Vec<Instruction>)
    ensures
        seq@ == seq![plain(0x02, offset)],
{
    vec![Instruction::new(BPF_ST, 0, 0, offset)]
}

/// Generates a sequence of instructions that loads into X four times the
/// low nibble of the octet at a given offset in the packet.
pub fn load_u8_into_x_from_packet_at(offset: u32) -> (seq: Vec<Instruction>)
    ensures
        seq@ == seq![plain(0xb1, offset)],
{
    assert(0x01u16 | 0x10u16 | 0xa0u16 == 0xb1u16) by (bit_vector);
    vec![Instruction::new(BPF_LDX | BPF_B | BPF_MSH, 0, 0, offset)]
}

/// Generates a sequence of instructions that loads 2 octets from X+offset in the packet.
pub fn load_u16_at_x_offset(offset: u32) -> (seq: Vec<Instruction>)
    ensures
        seq@ == seq![plain(0x48, offset)],
{
    assert(0x00u16 | 0x40u16 | 0x08u16 == 0x48u16) by (bit_vector);
    vec![Instruction::new(BPF_LD | BPF_IND | BPF_H, 0, 0, offset)]
}

/// Generates a sequence of instructions that loads scratch slot `offset`
/// into A.
pub fn load_u16_from_m_offset(offset: u32) -> (seq: Vec<Instruction>)
    ensures
        seq@ == seq![plain(0x60, offset)],
{
    assert(0x00u16 | 0x60u16 == 0x60u16) by (bit_vector);
    vec![Instruction::new(BPF_LD | BPF_MEM, 0, 0, offset)]
}

/// A program in the shape the kernel takes: its length and its
/// instructions.
#[derive(Debug)]
pub struct SocketFilterProgram {
    len: u16,
    filter: Vec<SocketFilter>,
}

impl View for SocketFilterProgram {
    type V = Seq<Instruction>;

    closed spec fn view(&self) -> Seq<Instruction> {
        self.filter@
    }
}

impl Clone for SocketFilterProgram {
    fn clone(&self) -> (copy: Self)
        ensures
            copy@ == self@,
    {
        proof {
            use_type_invariant(self);
        }
        let filter = self.filter.clone();
        assert(filter@ =~= self.filter@);
        Self { len: self.len, filter }
    }
}

impl SocketFilterProgram {
    #[verifier::type_invariant]
    spec fn well_formed(self) -> bool {
        self.len as nat == self.filter@.len()
    }

    /// Creates a new `SocketFilterProgram` from the given `SocketFilter` vector
    pub fn from_vector(v: Vec<SocketFilter>) -> (program: Self)
        requires
            v@.len() <= 65535,
        ensures
            program@ == v@,
    {
        let len = v.len() as u16;
        Self { len, filter: v }
    }

    /// The number of instructions.
    pub fn len(&self) -> (len: u16)
        ensures
            len as nat == self@.len(),
    {
        proof {
            use_type_invariant(self);
        }
        self.len
    }

    /// The instructions, in execution order.
    pub fn instructions(&self) -> (instructions: &Vec<SocketFilter>)
        ensures
            instructions@ == self@,
    {
        &self.filter
    }
}

} // verus!
