//! Ready-made predicates on fields of a frame.
//!
//! The idioms assume Ethernet II framing without VLAN tags. Each function
//! states the predicate that it returns as a formula; what such a formula
//! says of a frame is [`crate::semantics::holds_of`].
use crate::cbpf::{load_u16_at, load_u32_at, load_u8_at, plain, Comparison};
use crate::condition::{Condition, ConditionView};
use crate::consts::BPF_JEQ;
use crate::formula::Formula;
use crate::machine::{field, initial, lemma_transfer_steps};
use crate::predicate::Predicate;
use crate::semantics::{compute, covered, holds_of, holds_on, proper, truth};
use vstd::prelude::*;

/// Ethernet layer filtering idioms
pub mod ethernet;

/// IP layer filtering idioms
pub mod ip;

verus! {

/// The formula that holds where the value that the load with opcode `code`
/// finds at `offset` equals `value`.
pub open spec fn field_equals(code: u16, offset: u32, value: u32) -> Formula<ConditionView> {
    Formula::Terminal(
        ConditionView {
            computation: seq![plain(code, offset)],
            comparison: Comparison::Equal,
            operand: value,
        },
    )
}

/// The octet at `offset` equals `value`.
pub open spec fn u8_equals(offset: u32, value: u8) -> Formula<ConditionView> {
    field_equals(0x30, offset, value as u32)
}

/// The big-endian number in the two octets at `offset` equals `value`.
pub open spec fn u16_equals(offset: u32, value: u16) -> Formula<ConditionView> {
    field_equals(0x28, offset, value as u32)
}

/// The big-endian number in the four octets at `offset` equals `value`.
pub open spec fn u32_equals(offset: u32, value: u32) -> Formula<ConditionView> {
    field_equals(0x20, offset, value)
}

/// `a` and `b`, `a` tested first.
pub open spec fn both(a: Formula<ConditionView>, b: Formula<ConditionView>) -> Formula<
    ConditionView,
> {
    Formula::And(Box::new(a), Box::new(b))
}

/// `a` or `b`, `a` tested first.
pub open spec fn either(a: Formula<ConditionView>, b: Formula<ConditionView>) -> Formula<
    ConditionView,
> {
    Formula::Or(Box::new(a), Box::new(b))
}

/// The number of bytes that the load with opcode `code` reads.
pub open spec fn width_of(code: u16) -> int {
    if code == 0x30 {
        1
    } else if code == 0x28 {
        2
    } else {
        4
    }
}

/// What a comparison of a field says of a frame: it holds where the field
/// lies inside the frame and has the value, and the frame is long enough for
/// it where the field lies inside the frame.
pub proof fn lemma_field_equals(code: u16, offset: u32, value: u32, frame: Seq<u8>)
    requires
        code == 0x20 || code == 0x28 || code == 0x30,
    ensures
        proper(field_equals(code, offset, value)),
        covered(field_equals(code, offset, value), frame) == field(
            frame,
            offset as int,
            width_of(code),
        ) is Some,
        holds_of(field_equals(code, offset, value), frame) == (field(
            frame,
            offset as int,
            width_of(code),
        ) == Some(value)),
{
    let c = ConditionView {
        computation: seq![plain(code, offset)],
        comparison: Comparison::Equal,
        operand: value,
    };
    let e = field_equals(code, offset, value);
    assert(e.mentions(c));
    lemma_transfer_steps(offset, initial(), frame);
    assert(c.computation[0] == plain(code, offset));
    let loaded = compute(c.computation, 0, initial(), frame);
    match field(frame, offset as int, width_of(code)) {
        Some(found) => {
            let after = crate::machine::State { a: found, ..initial() };
            assert(compute(c.computation, 1, after, frame) == Some(after));
            assert(loaded == Some(after));
        },
        None => {
            assert(loaded is None);
        },
    }
    assert(holds_on(c, frame) == (field(frame, offset as int, width_of(code)) == Some(value)));
    assert(truth(frame)(c) == holds_on(c, frame));
}

/// true iff the octet at offset `offset` equals `value`
pub fn offset_equals_u8(offset: u32, value: u8) -> (p: Predicate)
    ensures
        p@ == u8_equals(offset, value),
{
    Predicate::terminal(
        Condition::new(load_u8_at(offset), Comparison::from_u8(BPF_JEQ as u8), value as u32),
    )
}

/// true iff the octet at offset `offset + shift` equals `value`
pub fn shift_offset_equals_u8(offset: u32, value: u8, shift: u32) -> (p: Predicate)
    requires
        offset + shift <= u32::MAX,
    ensures
        p@ == u8_equals((offset + shift) as u32, value),
{
    Predicate::terminal(
        Condition::new(load_u8_at(offset + shift), Comparison::from_u8(BPF_JEQ as u8), value as u32),
    )
}

/// true iff the u16 at offset `offset` equals `value`
pub fn offset_equals_u16(offset: u32, value: u16) -> (p: Predicate)
    ensures
        p@ == u16_equals(offset, value),
{
    Predicate::terminal(
        Condition::new(load_u16_at(offset), Comparison::from_u8(BPF_JEQ as u8), value as u32),
    )
}

/// true iff the u16 at offset `offset + shift` equals `value`
pub fn shift_offset_equals_u16(offset: u32, value: u16, shift: u32) -> (p: Predicate)
    requires
        offset + shift <= u32::MAX,
    ensures
        p@ == u16_equals((offset + shift) as u32, value),
{
    Predicate::terminal(
        Condition::new(load_u16_at(offset + shift), Comparison::from_u8(BPF_JEQ as u8), value as u32),
    )
}

/// true iff the u32 at offset `offset` equals `value`
pub fn offset_equals_u32(offset: u32, value: u32) -> (p: Predicate)
    ensures
        p@ == u32_equals(offset, value),
{
    Predicate::terminal(
        Condition::new(load_u32_at(offset), Comparison::from_u8(BPF_JEQ as u8), value),
    )
}

/// true iff the u32 at offset `offset + shift` equals `value`
pub fn shift_offset_equals_u32(offset: u32, value: u32, shift: u32) -> (p: Predicate)
    requires
        offset + shift <= u32::MAX,
    ensures
        p@ == u32_equals((offset + shift) as u32, value),
{
    Predicate::terminal(
        Condition::new(load_u32_at(offset + shift), Comparison::from_u8(BPF_JEQ as u8), value),
    )
}

} // verus!
