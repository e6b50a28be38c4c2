use crate::address::MacAddress;
use crate::cbpf::{jump_instruction, load_u16_at, load_u32_at, plain, Comparison};
use crate::codegen::epilogue;
use crate::condition::{Condition, ConditionView};
use crate::consts::{
    BPF_JEQ, ETH_P_ARP, ETH_P_IP, ETH_P_IPV6, OFFSET_ETHER_DST, OFFSET_ETHER_SRC,
    OFFSET_ETHER_TYPE,
};
use crate::formula::Formula;
use crate::laws::{compiled, law_single_condition, simplified_faithfully};
use crate::idiom::{both, either, offset_equals_u16, u16_equals, u32_equals};
use crate::predicate::Predicate;
use vstd::prelude::*;

verus! {

/// The frame's EtherType is `ether_type`.
pub open spec fn ether_type_formula(ether_type: u16) -> Formula<ConditionView> {
    u16_equals(12, ether_type)
}

/// The frame's source address is `mac`: its first four octets, then its
/// last two.
pub open spec fn ether_src_formula(mac: MacAddress) -> Formula<ConditionView> {
    both(u32_equals(6, mac.head()), u16_equals(10, mac.tail()))
}

/// The frame's destination address is `mac`.
pub open spec fn ether_dst_formula(mac: MacAddress) -> Formula<ConditionView> {
    both(u32_equals(0, mac.head()), u16_equals(4, mac.tail()))
}

/// true iff packet's ethernet type is `value`
pub fn ether_type(value: u16) -> (p: Predicate)
    ensures
        p@ == ether_type_formula(value),
{
    offset_equals_u16(OFFSET_ETHER_TYPE, value)
}

/// The width of the part of an address that is compared first.
const SIZE_U32: u32 = 4;

/// true iff ethernet source is `mac`
pub fn ether_src(mac: MacAddress) -> (p: Predicate)
    ensures
        p@ == ether_src_formula(mac),
{
    let (foursome, twosome) = mac.to_u32_and_u16();
    Predicate::terminal(
        Condition::new(
            load_u32_at(OFFSET_ETHER_SRC),
            Comparison::from_u8(BPF_JEQ as u8),
            foursome,
        ),
    ).and(
        Predicate::terminal(
            Condition::new(
                load_u16_at(OFFSET_ETHER_SRC + SIZE_U32),
                Comparison::from_u8(BPF_JEQ as u8),
                twosome as u32,
            ),
        ),
    )
}

/// true iff ethernet destination is `mac`
pub fn ether_dst(mac: MacAddress) -> (p: Predicate)
    ensures
        p@ == ether_dst_formula(mac),
{
    let (foursome, twosome) = mac.to_u32_and_u16();
    Predicate::terminal(
        Condition::new(
            load_u32_at(OFFSET_ETHER_DST),
            Comparison::from_u8(BPF_JEQ as u8),
            foursome,
        ),
    ).and(
        Predicate::terminal(
            Condition::new(
                load_u16_at(OFFSET_ETHER_DST + SIZE_U32),
                Comparison::from_u8(BPF_JEQ as u8),
                twosome as u32,
            ),
        ),
    )
}

/// true iff `mac` is either the ethernet source or destination of the packet
pub fn ether_host(mac: MacAddress) -> (p: Predicate)
    ensures
        p@ == either(ether_dst_formula(mac), ether_src_formula(mac)),
{
    ether_dst(mac).or(ether_src(mac))
}

/// accepts only ARP packets
pub fn ether_type_arp() -> (p: Predicate)
    ensures
        p@ == ether_type_formula(0x0806),
{
    ether_type(ETH_P_ARP as u16)
}

/// accepts only IPv4 packets
pub fn ether_type_ip4() -> (p: Predicate)
    ensures
        p@ == ether_type_formula(0x0800),
{
    ether_type(ETH_P_IP as u16)
}

/// accepts only IPv6 packets
pub fn ether_type_ip6() -> (p: Predicate)
    ensures
        p@ == ether_type_formula(0x86DD),
{
    ether_type(ETH_P_IPV6 as u16)
}

/// The program that the EtherType idiom compiles to: the load of the two
/// octets at offset 12, the test that goes on to the accept or two
/// instructions further to the drop, and the epilogue.
pub proof fn theorem_ether_type_program(value: u16)
    requires
        simplified_faithfully(ether_type_formula(value)),
    ensures
        compiled(ether_type_formula(value)) == Some(
            seq![plain(0x28, 12), jump_instruction(Comparison::Equal, value as u32, 0, 2)]
                + epilogue(),
        ),
{
    let c = ConditionView {
        computation: seq![plain(0x28, 12)],
        comparison: Comparison::Equal,
        operand: value as u32,
    };
    law_single_condition(c);
    assert(c.code(0, 2) =~= seq![
        plain(0x28, 12),
        jump_instruction(Comparison::Equal, value as u32, 0, 2),
    ]);
}

} // verus!
