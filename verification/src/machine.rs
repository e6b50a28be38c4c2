//! What the instructions mean: the classic BPF machine, as far as this
//! library emits code for it.
//!
//! The machine has an accumulator A, an index register X and sixteen
//! scratch slots. It runs a program on a frame from the first instruction
//! on. Jumps only go forward. A program ends by returning the number of
//! bytes of the frame to keep; 0 drops the frame. A load outside the frame,
//! an opcode the machine does not know, a scratch slot that does not exist
//! and running off the end of the program drop the frame too.
//!
//! An unconditional jump goes `jt` instructions forward.
use crate::cbpf::{Comparison, Instruction};
use crate::endian::{be_u16, be_u32, u16_at, u32_at};
use vstd::prelude::*;

verus! {

/// The number of scratch slots.
pub const SCRATCH_SLOTS: usize = 16;

/// The registers and the scratch memory.
pub struct State {
    pub a: u32,
    pub x: u32,
    pub mem: Seq<u32>,
}

/// The state in which a program starts: everything is 0.
pub open spec fn initial() -> State {
    State { a: 0, x: 0, mem: Seq::new(16, |i: int| 0u32) }
}

/// What one instruction does.
pub enum Effect {
    /// Go on in the given state, skipping the given number of instructions.
    Go(State, nat),
    /// Keep this many bytes of the frame.
    Return(u32),
    /// Drop the frame.
    Fault,
}

/// The length of the frame as the accumulator can hold it.
pub open spec fn length_of(frame: Seq<u8>) -> u32 {
    if frame.len() <= u32::MAX {
        frame.len() as u32
    } else {
        u32::MAX
    }
}

/// The `width` bytes of the frame at `at`, as a big-endian number; `None`
/// where they do not all lie in the frame.
pub open spec fn field(frame: Seq<u8>, at: int, width: int) -> Option<u32> {
    if 0 <= at && at + width <= frame.len() {
        if width == 1 {
            Some(frame[at] as u32)
        } else if width == 2 {
            Some(be_u16(frame, at) as u32)
        } else {
            Some(be_u32(frame, at) as u32)
        }
    } else {
        None
    }
}

/// The effect of loading a field of the frame into A.
pub open spec fn load_a(s: State, frame: Seq<u8>, at: int, width: int) -> Effect {
    match field(frame, at, width) {
        Some(value) => Effect::Go(State { a: value, ..s }, 0),
        None => Effect::Fault,
    }
}

/// Four times the low nibble of `byte`: the length of the IPv4 header
/// whose first octet is `byte`.
pub open spec fn header_length(byte: u8) -> u32 {
    (4 * (byte & 0x0f)) as u32
}

/// Whether the instruction with opcode `code` neither jumps nor returns:
/// it is a load or a store.
pub open spec fn is_transfer(code: u16) -> bool {
    code == 0x00 || code == 0x20 || code == 0x28 || code == 0x30 || code == 0x40 || code == 0x48
        || code == 0x50 || code == 0x60 || code == 0x80 || code == 0x01 || code == 0x61 || code
        == 0x81 || code == 0xb1 || code == 0x02 || code == 0x03
}

/// What `ins` does in state `s` on `frame`.
#[verifier::opaque]
pub open spec fn step(ins: Instruction, s: State, frame: Seq<u8>) -> Effect {
    let k = ins.k;
    if ins.code == 0x00 {
        Effect::Go(State { a: k, ..s }, 0)
    } else if ins.code == 0x20 {
        load_a(s, frame, k as int, 4)
    } else if ins.code == 0x28 {
        load_a(s, frame, k as int, 2)
    } else if ins.code == 0x30 {
        load_a(s, frame, k as int, 1)
    } else if ins.code == 0x40 {
        load_a(s, frame, s.x + k, 4)
    } else if ins.code == 0x48 {
        load_a(s, frame, s.x + k, 2)
    } else if ins.code == 0x50 {
        load_a(s, frame, s.x + k, 1)
    } else if ins.code == 0x60 {
        if k < 16 {
            Effect::Go(State { a: s.mem[k as int], ..s }, 0)
        } else {
            Effect::Fault
        }
    } else if ins.code == 0x80 {
        Effect::Go(State { a: length_of(frame), ..s }, 0)
    } else if ins.code == 0x01 {
        Effect::Go(State { x: k, ..s }, 0)
    } else if ins.code == 0x61 {
        if k < 16 {
            Effect::Go(State { x: s.mem[k as int], ..s }, 0)
        } else {
            Effect::Fault
        }
    } else if ins.code == 0x81 {
        Effect::Go(State { x: length_of(frame), ..s }, 0)
    } else if ins.code == 0xb1 {
        if k < frame.len() {
            Effect::Go(State { x: header_length(frame[k as int]), ..s }, 0)
        } else {
            Effect::Fault
        }
    } else if ins.code == 0x02 {
        if k < 16 {
            Effect::Go(State { mem: s.mem.update(k as int, s.a), ..s }, 0)
        } else {
            Effect::Fault
        }
    } else if ins.code == 0x03 {
        if k < 16 {
            Effect::Go(State { mem: s.mem.update(k as int, s.x), ..s }, 0)
        } else {
            Effect::Fault
        }
    } else if ins.code == 0x05 {
        Effect::Go(s, ins.jt as nat)
    } else if ins.code == 0x15 {
        Effect::Go(s, if s.a == k { ins.jt as nat } else { ins.jf as nat })
    } else if ins.code == 0x25 {
        Effect::Go(s, if s.a > k { ins.jt as nat } else { ins.jf as nat })
    } else if ins.code == 0x35 {
        Effect::Go(s, if s.a >= k { ins.jt as nat } else { ins.jf as nat })
    } else if ins.code == 0x45 {
        Effect::Go(s, if s.a & k != 0 { ins.jt as nat } else { ins.jf as nat })
    } else if ins.code == 0x06 {
        Effect::Return(k)
    } else if ins.code == 0x16 {
        Effect::Return(s.a)
    } else {
        Effect::Fault
    }
}

/// The number of bytes of `frame` that `program` keeps when it goes on at
/// instruction `pc` in state `s`.
pub open spec fn run(program: Seq<Instruction>, frame: Seq<u8>, pc: int, s: State) -> u32
    decreases program.len() - pc,
{
    if pc < 0 || pc >= program.len() {
        0
    } else {
        match step(program[pc], s, frame) {
            Effect::Go(next, skip) => if pc + 1 + skip >= program.len() {
                0
            } else {
                run(program, frame, pc + 1 + skip, next)
            },
            Effect::Return(kept) => kept,
            Effect::Fault => 0,
        }
    }
}

/// The number of bytes of `frame` that `program` keeps; 0 where it drops
/// the frame.
pub open spec fn keeps(program: Seq<Instruction>, frame: Seq<u8>) -> u32 {
    run(program, frame, 0, initial())
}

/// Whether `program` lets `frame` pass.
pub open spec fn accepts(program: Seq<Instruction>, frame: Seq<u8>) -> bool {
    keeps(program, frame) != 0
}

/// The jump on a comparison goes `jt` forward where the comparison holds
/// of A and the operand, and `jf` where it does not.
pub proof fn lemma_jump_step(
    comparison: Comparison,
    operand: u32,
    jt: u8,
    jf: u8,
    s: State,
    frame: Seq<u8>,
)
    ensures
        step(crate::cbpf::jump_instruction(comparison, operand, jt, jf), s, frame) == Effect::Go(
            s,
            if comparison.holds(s.a, operand) {
                jt as nat
            } else {
                jf as nat
            },
        ),
{
    reveal(step);
}

/// A load or a store goes on at the next instruction or drops the frame.
pub proof fn lemma_transfer_step(ins: Instruction, s: State, frame: Seq<u8>)
    requires
        is_transfer(ins.code),
    ensures
        match step(ins, s, frame) {
            Effect::Go(_, skip) => skip == 0,
            Effect::Return(_) => false,
            Effect::Fault => true,
        },
{
    reveal(step);
}

/// What the instructions of the epilogue do.
pub proof fn lemma_epilogue_steps(s: State, frame: Seq<u8>)
    ensures
        step(crate::cbpf::load_length_instruction(), s, frame) == Effect::Go(
            State { a: length_of(frame), ..s },
            0,
        ),
        step(crate::cbpf::return_a_instruction(), s, frame) == Effect::Return(s.a),
        step(crate::cbpf::drop_instruction(), s, frame) == Effect::Return(0),
{
    reveal(step);
}

/// A step that goes on leads to the run from the instruction it goes on
/// at.
pub proof fn lemma_run_go(
    program: Seq<Instruction>,
    frame: Seq<u8>,
    pc: int,
    s: State,
    next: State,
    skip: nat,
)
    requires
        0 <= pc < program.len(),
        step(program[pc], s, frame) == Effect::Go(next, skip),
    ensures
        run(program, frame, pc, s) == run(program, frame, pc + 1 + skip, next),
{
}

/// What the loads and stores do that the library's builders emit.
pub proof fn lemma_transfer_steps(k: u32, s: State, frame: Seq<u8>)
    ensures
        step(crate::cbpf::plain(0x20, k), s, frame) == load_a(s, frame, k as int, 4),
        step(crate::cbpf::plain(0x28, k), s, frame) == load_a(s, frame, k as int, 2),
        step(crate::cbpf::plain(0x30, k), s, frame) == load_a(s, frame, k as int, 1),
        step(crate::cbpf::plain(0x48, k), s, frame) == load_a(s, frame, s.x + k, 2),
        k < 16 ==> step(crate::cbpf::plain(0x60, k), s, frame) == Effect::Go(
            State { a: s.mem[k as int], ..s },
            0,
        ),
        k < 16 ==> step(crate::cbpf::plain(0x02, k), s, frame) == Effect::Go(
            State { mem: s.mem.update(k as int, s.a), ..s },
            0,
        ),
        k < frame.len() ==> step(crate::cbpf::plain(0xb1, k), s, frame) == Effect::Go(
            State { x: header_length(frame[k as int]), ..s },
            0,
        ),
{
    reveal(step);
}

/// The state that the registers `a`, `x` and the scratch memory `mem` make.
pub open spec fn state_of(a: u32, x: u32, mem: Seq<u32>) -> State {
    State { a, x, mem }
}

/// How the machine goes on after an instruction.
pub enum Next {
    /// With the instruction that lies this many instructions further.
    Go(u8),
    /// Not at all: this many bytes of the frame are kept.
    Return(u32),
    /// Not at all: the frame is dropped.
    Fault,
}

/// Reads the `width` bytes of the frame at `at` as a big-endian number.
fn read_field(frame: &[u8], at: u64, width: u8) -> (value: Option<u32>)
    requires
        width == 1 || width == 2 || width == 4,
    ensures
        value == field(frame@, at as int, width as int),
{
    let len: usize = frame.len();
    if at > (len as u64) || (len as u64) - at < (width as u64) {
        return None;
    }
    let index: usize = at as usize;
    if width == 1 {
        Some(frame[index] as u32)
    } else if width == 2 {
        Some(u16_at(frame, index) as u32)
    } else {
        Some(u32_at(frame, index))
    }
}

/// Loads a field of the frame into A.
fn perform_load(a: &mut u32, frame: &[u8], at: u64, width: u8) -> (next: Next)
    requires
        width == 1 || width == 2 || width == 4,
    ensures
        match field(frame@, at as int, width as int) {
            Some(value) => next == Next::Go(0) && *final(a) == value,
            None => next == Next::Fault,
        },
{
    match read_field(frame, at, width) {
        Some(value) => {
            *a = value;
            Next::Go(0)
        },
        None => Next::Fault,
    }
}

/// The length of the frame as the accumulator can hold it.
fn frame_length(frame: &[u8]) -> (len: u32)
    ensures
        len == length_of(frame@),
{
    let len: usize = frame.len();
    if len > 0xffff_ffff {
        0xffff_ffff
    } else {
        len as u32
    }
}

/// Performs one instruction on the registers and the scratch memory.
fn perform(ins: Instruction, a: &mut u32, x: &mut u32, mem: &mut Vec<u32>, frame: &[u8]) -> (next:
    Next)
    requires
        old(mem)@.len() == 16,
    ensures
        final(mem)@.len() == 16,
        match step(ins, state_of(*old(a), *old(x), old(mem)@), frame@) {
            Effect::Go(after, skip) => next == Next::Go(skip as u8) && skip <= 255 && after
                == state_of(*final(a), *final(x), final(mem)@),
            Effect::Return(kept) => next == Next::Return(kept),
            Effect::Fault => next == Next::Fault,
        },
{
    proof {
        reveal(step);
    }
    let k: u32 = ins.k;
    let code: u16 = ins.code;
    if code == 0x00 {
        *a = k;
        Next::Go(0)
    } else if code == 0x20 {
        perform_load(a, frame, k as u64, 4)
    } else if code == 0x28 {
        perform_load(a, frame, k as u64, 2)
    } else if code == 0x30 {
        perform_load(a, frame, k as u64, 1)
    } else if code == 0x40 {
        perform_load(a, frame, *x as u64 + k as u64, 4)
    } else if code == 0x48 {
        perform_load(a, frame, *x as u64 + k as u64, 2)
    } else if code == 0x50 {
        perform_load(a, frame, *x as u64 + k as u64, 1)
    } else if code == 0x60 {
        if k < 16 {
            *a = mem[k as usize];
            Next::Go(0)
        } else {
            Next::Fault
        }
    } else if code == 0x80 {
        *a = frame_length(frame);
        Next::Go(0)
    } else if code == 0x01 {
        *x = k;
        Next::Go(0)
    } else if code == 0x61 {
        if k < 16 {
            *x = mem[k as usize];
            Next::Go(0)
        } else {
            Next::Fault
        }
    } else if code == 0x81 {
        *x = frame_length(frame);
        Next::Go(0)
    } else if code == 0xb1 {
        let len: usize = frame.len();
        if (k as u64) < (len as u64) {
            let byte: u8 = frame[k as usize];
            let nibble: u8 = byte & 0x0f;
            assert(nibble <= 15) by (bit_vector)
                requires
                    nibble == byte & 0x0f,
            ;
            *x = 4 * (nibble as u32);
            Next::Go(0)
        } else {
            Next::Fault
        }
    } else if code == 0x02 {
        if k < 16 {
            mem.set(k as usize, *a);
            Next::Go(0)
        } else {
            Next::Fault
        }
    } else if code == 0x03 {
        if k < 16 {
            mem.set(k as usize, *x);
            Next::Go(0)
        } else {
            Next::Fault
        }
    } else if code == 0x05 {
        Next::Go(ins.jt)
    } else if code == 0x15 {
        Next::Go(if *a == k { ins.jt } else { ins.jf })
    } else if code == 0x25 {
        Next::Go(if *a > k { ins.jt } else { ins.jf })
    } else if code == 0x35 {
        Next::Go(if *a >= k { ins.jt } else { ins.jf })
    } else if code == 0x45 {
        Next::Go(if *a & k != 0 { ins.jt } else { ins.jf })
    } else if code == 0x06 {
        Next::Return(k)
    } else if code == 0x16 {
        Next::Return(*a)
    } else {
        Next::Fault
    }
}

/// Runs `program` on `frame` as the machine of this module does, and says
/// how many bytes of the frame it keeps.
pub fn execute(program: &[Instruction], frame: &[u8]) -> (kept: u32)
    ensures
        kept == keeps(program@, frame@),
{
    let mut a: u32 = 0;
    let mut x: u32 = 0;
    let mut mem: Vec<u32> = Vec::new();
    let mut slot: usize = 0;
    while slot < SCRATCH_SLOTS
        invariant
            slot <= SCRATCH_SLOTS,
            mem@.len() == slot,
            forall|i: int| 0 <= i < slot ==> mem@[i] == 0,
        decreases SCRATCH_SLOTS - slot,
    {
        mem.push(0);
        slot = slot + 1;
    }
    assert(mem@ =~= initial().mem);
    let mut pc: usize = 0;
    while pc < program.len()
        invariant
            mem@.len() == 16,
            run(program@, frame@, pc as int, state_of(a, x, mem@)) == keeps(program@, frame@),
        decreases program@.len() - pc,
    {
        let ghost before = state_of(a, x, mem@);
        match perform(program[pc], &mut a, &mut x, &mut mem, frame) {
            Next::Go(skip) => {
                let rest: usize = program.len() - pc - 1;
                if (skip as usize) >= rest {
                    return 0;
                }
                pc = pc + 1 + skip as usize;
            },
            Next::Return(kept) => {
                return kept;
            },
            Next::Fault => {
                return 0;
            },
        }
    }
    0
}

} // verus!
