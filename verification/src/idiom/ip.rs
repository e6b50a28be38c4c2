use crate::address::{IpAddress, Ipv4Address, Ipv6Address};
use crate::condition::ConditionView;
use crate::consts::{
    OFFSET_IP4_DST, OFFSET_IP4_PROTO, OFFSET_IP4_SRC, OFFSET_IP4_TTL, OFFSET_IP6_DST,
    OFFSET_IP6_HOP_LIMIT, OFFSET_IP6_NEXT_HEADER, OFFSET_IP6_SRC, SIZE_ETHER_HEADER,
};
use crate::formula::Formula;
use crate::idiom::ethernet::{ether_type_formula, ether_type_ip4, ether_type_ip6};
use crate::idiom::{
    both, either, shift_offset_equals_u32, shift_offset_equals_u8, u32_equals, u8_equals,
};
use crate::endian::be_u32;
use crate::idiom::lemma_field_equals;
use crate::laws::{compiled, lemma_pair_parts, simplified_faithfully, theorem_compiled};
use crate::machine::{keeps, length_of};
use crate::predicate::Predicate;
use vstd::prelude::*;

verus! {

/// The four octets at `offset + shift` hold the IPv4 address `ip`.
pub open spec fn ip4_at(ip: Ipv4Address, offset: u32, shift: u32) -> Formula<ConditionView> {
    u32_equals((offset + shift) as u32, ip.value())
}

/// The sixteen octets at `offset + shift` hold the IPv6 address `ip`, word
/// by word.
pub open spec fn ip6_at(ip: Ipv6Address, offset: u32, shift: u32) -> Formula<ConditionView> {
    both(
        both(
            both(
                u32_equals((offset + shift) as u32, ip.word(0)),
                u32_equals((offset + 4 + shift) as u32, ip.word(1)),
            ),
            u32_equals((offset + 8 + shift) as u32, ip.word(2)),
        ),
        u32_equals((offset + 12 + shift) as u32, ip.word(3)),
    )
}

/// The IP source is `ip`, the IP layer starting at `shift`.
pub open spec fn ip_src_formula(ip: IpAddress, shift: u32) -> Formula<ConditionView> {
    match ip {
        IpAddress::V4(ip4) => ip4_at(ip4, 12, shift),
        IpAddress::V6(ip6) => ip6_at(ip6, 8, shift),
    }
}

/// The IP destination is `ip`, the IP layer starting at `shift`.
pub open spec fn ip_dst_formula(ip: IpAddress, shift: u32) -> Formula<ConditionView> {
    match ip {
        IpAddress::V4(ip4) => ip4_at(ip4, 16, shift),
        IpAddress::V6(ip6) => ip6_at(ip6, 24, shift),
    }
}

/// true iff packet's IP TTL field is `ttl`, assuming IP layer starts at offset `shift`
pub fn shift_ip4_ttl(ttl: u8, shift: u32) -> (p: Predicate)
    requires
        8 + shift <= u32::MAX,
    ensures
        p@ == u8_equals((8 + shift) as u32, ttl),
{
    shift_offset_equals_u8(OFFSET_IP4_TTL, ttl, shift)
}

/// true iff packet's IP TTL field is `ttl`
pub fn ip4_ttl(ttl: u8) -> (p: Predicate)
    ensures
        p@ == u8_equals(22, ttl),
{
    shift_ip4_ttl(ttl, SIZE_ETHER_HEADER)
}

/// true iff packet's IP protocol field is `proto`, assuming IP layer starts at offset `shift`
pub fn shift_ip4_proto(proto: u8, shift: u32) -> (p: Predicate)
    requires
        9 + shift <= u32::MAX,
    ensures
        p@ == u8_equals((9 + shift) as u32, proto),
{
    shift_offset_equals_u8(OFFSET_IP4_PROTO, proto, shift)
}

/// true iff packet's IP protocol field is `proto`
pub fn ip4_proto(proto: u8) -> (p: Predicate)
    ensures
        p@ == u8_equals(23, proto),
{
    shift_ip4_proto(proto, SIZE_ETHER_HEADER)
}

/// true iff IP source is `ip`, assuming IP layer starts at offset `shift`
pub fn shift_ip4_src(ip: Ipv4Address, shift: u32) -> (p: Predicate)
    requires
        12 + shift <= u32::MAX,
    ensures
        p@ == ip4_at(ip, 12, shift),
{
    shift_offset_equals_u32(OFFSET_IP4_SRC, ip.to_u32(), shift)
}

/// true iff IP source is `ip`
pub fn ip4_src(ip: Ipv4Address) -> (p: Predicate)
    ensures
        p@ == both(ether_type_formula(0x0800), ip4_at(ip, 12, 14)),
{
    ether_type_ip4().and(shift_ip4_src(ip, SIZE_ETHER_HEADER))
}

/// true iff IP destination is `ip`, assuming IP layer starts at offset `shift`
pub fn shift_ip4_dst(ip: Ipv4Address, shift: u32) -> (p: Predicate)
    requires
        16 + shift <= u32::MAX,
    ensures
        p@ == ip4_at(ip, 16, shift),
{
    shift_offset_equals_u32(OFFSET_IP4_DST, ip.to_u32(), shift)
}

/// true iff IP destination is `ip`
pub fn ip4_dst(ip: Ipv4Address) -> (p: Predicate)
    ensures
        p@ == both(ether_type_formula(0x0800), ip4_at(ip, 16, 14)),
{
    ether_type_ip4().and(shift_ip4_dst(ip, SIZE_ETHER_HEADER))
}

/// true iff either IP destination or source is `ip`, assuming IP layer starts at offset `shift`
pub fn shift_ip4_host(ip: Ipv4Address, shift: u32) -> (p: Predicate)
    requires
        16 + shift <= u32::MAX,
    ensures
        p@ == either(ip4_at(ip, 12, shift), ip4_at(ip, 16, shift)),
{
    shift_ip4_src(ip, shift).or(shift_ip4_dst(ip, shift))
}

/// true iff `ip` is either IP source or destination
pub fn ip4_host(ip: Ipv4Address) -> (p: Predicate)
    ensures
        p@ == either(ip4_at(ip, 12, 14), ip4_at(ip, 16, 14)),
{
    shift_ip4_host(ip, SIZE_ETHER_HEADER)
}

/// true iff packet's IPv6 Hop Limit field is `ttl`, assuming IPv6 layer starts at offset `shift`
pub fn shift_ip6_hop_limit(ttl: u8, shift: u32) -> (p: Predicate)
    requires
        7 + shift <= u32::MAX,
    ensures
        p@ == u8_equals((7 + shift) as u32, ttl),
{
    shift_offset_equals_u8(OFFSET_IP6_HOP_LIMIT, ttl, shift)
}

/// true iff packet's IPv6 Hop Limit field is `ttl`
pub fn ip6_hop_limit(ttl: u8) -> (p: Predicate)
    ensures
        p@ == u8_equals(21, ttl),
{
    shift_ip6_hop_limit(ttl, SIZE_ETHER_HEADER)
}

/// true iff packet's IPv6 Next Header field is `proto`, assuming IPv6 layer starts at offset `shift`
pub fn shift_ip6_next_header(proto: u8, shift: u32) -> (p: Predicate)
    requires
        6 + shift <= u32::MAX,
    ensures
        p@ == u8_equals((6 + shift) as u32, proto),
{
    shift_offset_equals_u8(OFFSET_IP6_NEXT_HEADER, proto, shift)
}

/// true iff packet's IPv6 protocol field is `proto`
pub fn ip6_next_header(proto: u8) -> (p: Predicate)
    ensures
        p@ == u8_equals(20, proto),
{
    shift_ip6_next_header(proto, SIZE_ETHER_HEADER)
}

/// The address as four big-endian numbers.
pub fn ip6_address_to_u32_array(ip: Ipv6Address) -> (words: [u32; 4])
    ensures
        forall|k: int| 0 <= k < 4 ==> words[k] == ip.word(k),
{
    ip.to_u32_array()
}

/// The width of one compared part of an IPv6 address.
const SIZE_U32: u32 = 4;

/// The predicate that compares the four words at `offset + shift` with
/// those of `ip`.
fn shift_ip6_at(ip: Ipv6Address, offset: u32, shift: u32) -> (p: Predicate)
    requires
        offset + 12 + shift <= u32::MAX,
    ensures
        p@ == ip6_at(ip, offset, shift),
{
    let words = ip6_address_to_u32_array(ip);
    shift_offset_equals_u32(offset, words[0], shift).and(
        shift_offset_equals_u32(offset + SIZE_U32, words[1], shift),
    ).and(shift_offset_equals_u32(offset + SIZE_U32 * 2, words[2], shift)).and(
        shift_offset_equals_u32(offset + SIZE_U32 * 3, words[3], shift),
    )
}

/// true iff IP source is `ip`, assuming IP layer starts at offset `shift`
pub fn shift_ip6_src(ip: Ipv6Address, shift: u32) -> (p: Predicate)
    requires
        20 + shift <= u32::MAX,
    ensures
        p@ == ip6_at(ip, 8, shift),
{
    shift_ip6_at(ip, OFFSET_IP6_SRC, shift)
}

/// true iff IP source is `ip`
pub fn ip6_src(ip: Ipv6Address) -> (p: Predicate)
    ensures
        p@ == both(ether_type_formula(0x86DD), ip6_at(ip, 8, 14)),
{
    ether_type_ip6().and(shift_ip6_src(ip, SIZE_ETHER_HEADER))
}

/// true iff IP destination is `ip`, assuming IP layer starts at offset `shift`
pub fn shift_ip6_dst(ip: Ipv6Address, shift: u32) -> (p: Predicate)
    requires
        36 + shift <= u32::MAX,
    ensures
        p@ == ip6_at(ip, 24, shift),
{
    shift_ip6_at(ip, OFFSET_IP6_DST, shift)
}

/// true iff IP destination is `ip`
pub fn ip6_dst(ip: Ipv6Address) -> (p: Predicate)
    ensures
        p@ == both(ether_type_formula(0x86DD), ip6_at(ip, 24, 14)),
{
    ether_type_ip6().and(shift_ip6_dst(ip, SIZE_ETHER_HEADER))
}

/// true iff either IP destination or source is `ip`, assuming IP layer starts at offset `shift`
pub fn shift_ip6_host(ip: Ipv6Address, shift: u32) -> (p: Predicate)
    requires
        36 + shift <= u32::MAX,
    ensures
        p@ == either(ip6_at(ip, 8, shift), ip6_at(ip, 24, shift)),
{
    shift_ip6_src(ip, shift).or(shift_ip6_dst(ip, shift))
}

/// true iff `ip` is either IP source or destination
pub fn ip6_host(ip: Ipv6Address) -> (p: Predicate)
    ensures
        p@ == either(ip6_at(ip, 8, 14), ip6_at(ip, 24, 14)),
{
    shift_ip6_host(ip, SIZE_ETHER_HEADER)
}

/// true iff packet's Hop Limit field (TTL for IPv4) is `ttl`, assuming IP layer starts at offset `shift`
pub fn shift_ip_hop_limit(ttl: u8, shift: u32) -> (p: Predicate)
    requires
        8 + shift <= u32::MAX,
    ensures
        p@ == either(u8_equals((8 + shift) as u32, ttl), u8_equals((7 + shift) as u32, ttl)),
{
    shift_ip4_ttl(ttl, shift).or(shift_ip6_hop_limit(ttl, shift))
}

/// true iff packet's Hop Limit is `ttl`
pub fn ip_hop_limit(ttl: u8) -> (p: Predicate)
    ensures
        p@ == either(u8_equals(22, ttl), u8_equals(21, ttl)),
{
    shift_ip_hop_limit(ttl, SIZE_ETHER_HEADER)
}

/// true iff packet's the next layer after IP is identified by IP protocol `proto`, assuming IP
/// layer starts at offset `shift`
pub fn shift_ip_next_header(proto: u8, shift: u32) -> (p: Predicate)
    requires
        9 + shift <= u32::MAX,
    ensures
        p@ == either(u8_equals((9 + shift) as u32, proto), u8_equals((6 + shift) as u32, proto)),
{
    shift_ip4_proto(proto, shift).or(shift_ip6_next_header(proto, shift))
}

/// true iff packet's the next layer after IP is identified by IP protocol `proto`
pub fn ip_next_header(proto: u8) -> (p: Predicate)
    ensures
        p@ == either(u8_equals(23, proto), u8_equals(20, proto)),
{
    shift_ip_next_header(proto, SIZE_ETHER_HEADER)
}

/// true iff IP source is `ip`, assuming IP layer starts at offset `shift`
pub fn shift_ip_src(ip: IpAddress, shift: u32) -> (p: Predicate)
    requires
        match ip {
            IpAddress::V4(_) => 12 + shift <= u32::MAX,
            IpAddress::V6(_) => 20 + shift <= u32::MAX,
        },
    ensures
        p@ == ip_src_formula(ip, shift),
{
    match ip {
        IpAddress::V4(ip4) => shift_ip4_src(ip4, shift),
        IpAddress::V6(ip6) => shift_ip6_src(ip6, shift),
    }
}

/// true iff IP source is `ip`
pub fn ip_src(ip: IpAddress) -> (p: Predicate)
    ensures
        p@ == ip_src_formula(ip, 14),
{
    shift_ip_src(ip, SIZE_ETHER_HEADER)
}

/// true iff IP destination is `ip`, assuming IP layer starts at offset `shift`
pub fn shift_ip_dst(ip: IpAddress, shift: u32) -> (p: Predicate)
    requires
        match ip {
            IpAddress::V4(_) => 16 + shift <= u32::MAX,
            IpAddress::V6(_) => 36 + shift <= u32::MAX,
        },
    ensures
        p@ == ip_dst_formula(ip, shift),
{
    match ip {
        IpAddress::V4(ip4) => shift_ip4_dst(ip4, shift),
        IpAddress::V6(ip6) => shift_ip6_dst(ip6, shift),
    }
}

/// true iff IP destination is `ip`
pub fn ip_dst(ip: IpAddress) -> (p: Predicate)
    ensures
        p@ == ip_dst_formula(ip, 14),
{
    shift_ip_dst(ip, SIZE_ETHER_HEADER)
}

/// true iff either IP destination or source is `ip`, assuming IP layer starts at offset `shift`
pub fn shift_ip_host(ip: IpAddress, shift: u32) -> (p: Predicate)
    requires
        match ip {
            IpAddress::V4(_) => 16 + shift <= u32::MAX,
            IpAddress::V6(_) => 36 + shift <= u32::MAX,
        },
    ensures
        p@ == either(ip_src_formula(ip, shift), ip_dst_formula(ip, shift)),
{
    shift_ip_src(ip, shift).or(shift_ip_dst(ip, shift))
}

/// true iff `ip` is either IP source or destination
pub fn ip_host(ip: IpAddress) -> (p: Predicate)
    ensures
        p@ == either(ip_src_formula(ip, 14), ip_dst_formula(ip, 14)),
{
    shift_ip_host(ip, SIZE_ETHER_HEADER)
}

/// What the compiled host idiom does: of a frame that is long enough to
/// hold an IPv4 header behind the Ethernet header, it keeps everything where
/// the source or the destination is `ip`, and nothing otherwise.
pub proof fn theorem_ip4_host(ip: Ipv4Address, frame: Seq<u8>)
    requires
        simplified_faithfully(either(ip4_at(ip, 12, 14), ip4_at(ip, 16, 14))),
        compiled(either(ip4_at(ip, 12, 14), ip4_at(ip, 16, 14))) is Some,
        frame.len() >= 34,
    ensures
        keeps(compiled(either(ip4_at(ip, 12, 14), ip4_at(ip, 16, 14)))->Some_0, frame) == if be_u32(
            frame,
            26,
        ) == ip.value() || be_u32(frame, 30) == ip.value() {
            length_of(frame)
        } else {
            0u32
        },
{
    let source = ip4_at(ip, 12, 14);
    let destination = ip4_at(ip, 16, 14);
    lemma_field_equals(0x20, 26, ip.value(), frame);
    lemma_field_equals(0x20, 30, ip.value(), frame);
    lemma_pair_parts(source, destination, frame);
    lemma_be_u32_fits(frame, 26);
    lemma_be_u32_fits(frame, 30);
    theorem_compiled(either(source, destination), frame);
}

/// Four bytes make a number that fits in 32 bits.
pub proof fn lemma_be_u32_fits(bytes: Seq<u8>, at: int)
    requires
        0 <= at,
        at + 4 <= bytes.len(),
    ensures
        0 <= be_u32(bytes, at) <= u32::MAX,
{
}

} // verus!
