//! Opcode fields of the classic BPF encoding, and the packet layout the
//! idioms assume (Ethernet II framing without VLAN tags).
use vstd::prelude::*;

verus! {

// Instruction classes.
pub const BPF_LD: u16 = 0x00;
pub const BPF_LDX: u16 = 0x01;
pub const BPF_ST: u16 = 0x02;
pub const BPF_STX: u16 = 0x03;
pub const BPF_ALU: u16 = 0x04;
pub const BPF_JMP: u16 = 0x05;
pub const BPF_RET: u16 = 0x06;
pub const BPF_MISC: u16 = 0x07;

// Operand sizes of loads.
pub const BPF_W: u16 = 0x00;
pub const BPF_H: u16 = 0x08;
pub const BPF_B: u16 = 0x10;

// Addressing modes of loads.
pub const BPF_IMM: u16 = 0x00;
pub const BPF_ABS: u16 = 0x20;
pub const BPF_IND: u16 = 0x40;
pub const BPF_MEM: u16 = 0x60;
pub const BPF_LEN: u16 = 0x80;
pub const BPF_MSH: u16 = 0xa0;

// Jump conditions.
pub const BPF_JA: u16 = 0x00;
pub const BPF_JEQ: u16 = 0x10;
pub const BPF_JGT: u16 = 0x20;
pub const BPF_JGE: u16 = 0x30;
pub const BPF_JSET: u16 = 0x40;

// Operand sources.
pub const BPF_K: u16 = 0x00;
pub const BPF_X: u16 = 0x08;
pub const BPF_A: u16 = 0x10;

// Ethernet header.
pub const OFFSET_ETHER_DST: u32 = 0;
pub const OFFSET_ETHER_SRC: u32 = 6;
pub const OFFSET_ETHER_TYPE: u32 = 12;
pub const SIZE_ETHER_HEADER: u32 = 14;

pub const SIZE_IPV4_HEADER: u32 = 20;
pub const SIZE_IPV6_HEADER: u32 = 40;

// IPv4 header fields, relative to the start of the header.
pub const OFFSET_IP4_FRAGMENT: u32 = 6;
pub const OFFSET_IP4_TTL: u32 = 8;
pub const OFFSET_IP4_PROTO: u32 = 9;
pub const OFFSET_IP4_SRC: u32 = 12;
pub const OFFSET_IP4_DST: u32 = 16;

// IPv6 header fields, relative to the start of the header.
pub const OFFSET_IP6_NEXT_HEADER: u32 = 6;
pub const OFFSET_IP6_HOP_LIMIT: u32 = 7;
pub const OFFSET_IP6_SRC: u32 = 8;
pub const OFFSET_IP6_DST: u32 = 24;

// TCP header fields, relative to the start of the header.
pub const OFFSET_TCP_SRC_PORT: u32 = 0;
pub const OFFSET_TCP_DST_PORT: u32 = 2;

// EtherType values.
pub const ETH_P_IP: u32 = 0x0800;
pub const ETH_P_ARP: u32 = 0x0806;
pub const ETH_P_IPV6: u32 = 0x86DD;

} // verus!
