use bs_filter::capture::{after_attempt, check_received, Attempt, CaptureError, Step};
use bs_filter::cbpf::Instruction;
use bs_filter::endian::{u16_at, u32_at};
use bs_filter::machine::execute;

fn ret_a() -> Instruction {
    Instruction::new(0x16, 0, 0, 0)
}

#[test]
fn return_instructions() {
    assert_eq!(execute(&[Instruction::new(0x06, 0, 0, 7)], &[1, 2, 3]), 7);
    assert_eq!(execute(&[ret_a()], &[1, 2, 3]), 0);
    assert_eq!(execute(&[], &[1, 2, 3]), 0);
    assert_eq!(execute(&[Instruction::new(0x80, 0, 0, 0), ret_a()], &[1, 2, 3]), 3);
    // Running off the end drops the frame.
    assert_eq!(execute(&[Instruction::new(0x80, 0, 0, 0)], &[1, 2, 3]), 0);
}

#[test]
fn loads_are_big_endian_and_checked() {
    let frame = [0x12, 0x34, 0x56, 0x78, 0x9a];
    assert_eq!(execute(&[Instruction::new(0x30, 0, 0, 4), ret_a()], &frame), 0x9a);
    assert_eq!(execute(&[Instruction::new(0x28, 0, 0, 3), ret_a()], &frame), 0x789a);
    assert_eq!(execute(&[Instruction::new(0x20, 0, 0, 1), ret_a()], &frame), 0x3456789a);
    assert_eq!(execute(&[Instruction::new(0x20, 0, 0, 0), ret_a()], &frame), 0x12345678);
    assert_eq!(execute(&[Instruction::new(0x30, 0, 0, 5), ret_a()], &frame), 0);
    assert_eq!(execute(&[Instruction::new(0x28, 0, 0, 4), ret_a()], &frame), 0);
    assert_eq!(execute(&[Instruction::new(0x20, 0, 0, 2), ret_a()], &frame), 0);
    assert_eq!(execute(&[Instruction::new(0x20, 0, 0, 0xffff_ffff), ret_a()], &frame), 0);
    assert_eq!(execute(&[Instruction::new(0x00, 0, 0, 77), ret_a()], &frame), 77);
    assert_eq!(u16_at(&frame, 1), 0x3456);
    assert_eq!(u32_at(&frame, 1), 0x3456789a);
}

#[test]
fn index_register_and_scratch_memory() {
    let frame = [0x46, 0, 0, 0, 0, 0, 0, 0, 0, 0, 0, 0, 0, 0, 0, 0, 0, 0, 0, 0, 0, 0, 0, 0, 0xab, 0xcd];
    let program = [
        Instruction::new(0xb1, 0, 0, 0),
        Instruction::new(0x48, 0, 0, 0),
        Instruction::new(0x02, 0, 0, 5),
        Instruction::new(0x00, 0, 0, 1),
        Instruction::new(0x60, 0, 0, 5),
        ret_a(),
    ];
    assert_eq!(execute(&program, &frame), 0xabcd);
    // X is 24: one byte at X + 1.
    let program = [Instruction::new(0xb1, 0, 0, 0), Instruction::new(0x50, 0, 0, 1), ret_a()];
    assert_eq!(execute(&program, &frame), 0xcd);
    // There are sixteen slots.
    assert_eq!(execute(&[Instruction::new(0x02, 0, 0, 16), Instruction::new(0x06, 0, 0, 1)], &frame), 0);
    assert_eq!(execute(&[Instruction::new(0x02, 0, 0, 15), Instruction::new(0x06, 0, 0, 1)], &frame), 1);
    // X from an immediate, stored and loaded back into A.
    let program = [
        Instruction::new(0x01, 0, 0, 9),
        Instruction::new(0x03, 0, 0, 2),
        Instruction::new(0x60, 0, 0, 2),
        ret_a(),
    ];
    assert_eq!(execute(&program, &frame), 9);
}

#[test]
fn jumps() {
    let one = Instruction::new(0x06, 0, 0, 1);
    let two = Instruction::new(0x06, 0, 0, 2);
    let three = Instruction::new(0x06, 0, 0, 3);
    let test = |code: u16, k: u32, a: u32| {
        execute(&[Instruction::new(0x00, 0, 0, a), Instruction::new(code, 1, 2, k), one, two, three], &[])
    };
    assert_eq!(test(0x15, 5, 5), 2);
    assert_eq!(test(0x15, 5, 6), 3);
    assert_eq!(test(0x25, 5, 6), 2);
    assert_eq!(test(0x25, 5, 5), 3);
    assert_eq!(test(0x35, 5, 5), 2);
    assert_eq!(test(0x35, 5, 4), 3);
    assert_eq!(test(0x45, 0x1fff, 0x2001), 2);
    assert_eq!(test(0x45, 0x1fff, 0x2000), 3);
    assert_eq!(test(0x05, 0, 0), 2);
    // A jump past the end drops the frame.
    assert_eq!(execute(&[Instruction::new(0x05, 3, 0, 0), one, two], &[]), 0);
    // An opcode that the machine does not know drops the frame.
    assert_eq!(execute(&[Instruction::new(0x04, 0, 0, 1), one], &[]), 0);
}

#[test]
fn capture_decisions() {
    assert_eq!(check_received(1500, 655350), Ok(1500));
    assert_eq!(check_received(655350, 655350), Ok(655350));
    assert_eq!(
        check_received(655351, 655350),
        Err(CaptureError::BufferUndersize { required: 655351, capacity: 655350 })
    );
    assert_eq!(after_attempt(Attempt::Received(60), 100), Step::Deliver(60));
    assert_eq!(
        after_attempt(Attempt::Received(101), 100),
        Step::Report(CaptureError::BufferUndersize { required: 101, capacity: 100 })
    );
    assert_eq!(
        after_attempt(Attempt::Failed(11), 100),
        Step::Report(CaptureError::SystemCallFailure(11))
    );
    assert_eq!(after_attempt(Attempt::WouldBlock, 100), Step::Retry);
}
