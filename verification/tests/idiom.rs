use bs_filter::cbpf::Instruction;
use bs_filter::idiom::ethernet::{
    ether_dst, ether_host, ether_src, ether_type, ether_type_arp, ether_type_ip4, ether_type_ip6,
};
use bs_filter::idiom::ip::{
    ip4_dst, ip4_host, ip4_proto, ip4_src, ip4_ttl, ip6_address_to_u32_array, ip6_dst,
    ip6_hop_limit, ip6_host, ip6_next_header, ip6_src, ip_dst, ip_hop_limit, ip_host,
    ip_next_header, ip_src, shift_ip4_dst, shift_ip4_host, shift_ip4_proto, shift_ip4_src,
    shift_ip4_ttl, shift_ip6_dst, shift_ip6_hop_limit, shift_ip6_host, shift_ip6_next_header,
    shift_ip6_src, shift_ip_dst, shift_ip_hop_limit, shift_ip_host, shift_ip_next_header,
    shift_ip_src,
};
use bs_filter::idiom::{
    offset_equals_u16, offset_equals_u32, offset_equals_u8, shift_offset_equals_u16,
    shift_offset_equals_u32, shift_offset_equals_u8,
};
use bs_filter::machine::execute;
use bs_filter::{
    Comparison, Condition, Formula, IpAddress, Ipv4Address, Ipv6Address, MacAddress, Predicate,
};

fn terminal(code: u16, offset: u32, value: u32) -> Formula<Condition> {
    Formula::Terminal(Condition::new(
        vec![Instruction::new(code, 0, 0, offset)],
        Comparison::Equal,
        value,
    ))
}

fn and(a: Formula<Condition>, b: Formula<Condition>) -> Formula<Condition> {
    Formula::And(Box::new(a), Box::new(b))
}

fn or(a: Formula<Condition>, b: Formula<Condition>) -> Formula<Condition> {
    Formula::Or(Box::new(a), Box::new(b))
}

fn compiled(p: Predicate) -> Vec<Instruction> {
    p.compile().expect("fits").into_vec()
}

fn six() -> Ipv6Address {
    Ipv6Address::new([
        0x20, 0x01, 0x0d, 0xb8, 0, 0, 0, 1, 0xff, 0xee, 0xdd, 0xcc, 0x11, 0x22, 0x33, 0x44,
    ])
}

fn six_at(offset: u32) -> Formula<Condition> {
    and(
        and(
            and(terminal(0x20, offset, 0x20010db8), terminal(0x20, offset + 4, 1)),
            terminal(0x20, offset + 8, 0xffeeddcc),
        ),
        terminal(0x20, offset + 12, 0x11223344),
    )
}

fn ip4_frame(src: [u8; 4], dst: [u8; 4]) -> Vec<u8> {
    let mut frame = vec![0u8; 60];
    frame[12] = 0x08;
    frame[14] = 0x45;
    frame[26..30].copy_from_slice(&src);
    frame[30..34].copy_from_slice(&dst);
    frame
}

#[test]
fn ether_type_ip4_compiles_to_a_load_and_a_test() {
    assert_eq!(
        compiled(ether_type_ip4()),
        vec![
            Instruction::new(0x28, 0, 0, 12),
            Instruction::new(0x15, 0, 2, 0x0800),
            Instruction::new(0x80, 0, 0, 0),
            Instruction::new(0x16, 0, 0, 0),
            Instruction::new(0x06, 0, 0, 0),
        ]
    );
}

#[test]
fn ether_type_ip4_keeps_ipv4_and_drops_the_rest() {
    let program = compiled(ether_type_ip4());
    let mut frame = vec![0u8; 60];
    frame[12] = 0x08;
    assert_eq!(execute(&program, &frame), 60);
    frame[13] = 0x06;
    assert_eq!(execute(&program, &frame), 0);
    frame[12] = 0x86;
    frame[13] = 0xdd;
    assert_eq!(execute(&program, &frame), 0);
    assert_eq!(execute(&program, &frame[..13]), 0);
}

#[test]
fn offsets_and_widths() {
    assert_eq!(offset_equals_u8(3, 0xab).into_inner(), terminal(0x30, 3, 0xab));
    assert_eq!(offset_equals_u16(3, 0xabcd).into_inner(), terminal(0x28, 3, 0xabcd));
    assert_eq!(offset_equals_u32(3, 0xabcdef01).into_inner(), terminal(0x20, 3, 0xabcdef01));
    assert_eq!(shift_offset_equals_u8(3, 0xab, 14).into_inner(), terminal(0x30, 17, 0xab));
    assert_eq!(shift_offset_equals_u16(3, 0xabcd, 14).into_inner(), terminal(0x28, 17, 0xabcd));
    assert_eq!(
        shift_offset_equals_u32(3, 0xabcdef01, 0xffff_fffc).into_inner(),
        terminal(0x20, 0xffff_ffff, 0xabcdef01)
    );
}

#[test]
fn ethernet_idioms() {
    assert_eq!(ether_type(0x1234).into_inner(), terminal(0x28, 12, 0x1234));
    assert_eq!(ether_type_arp().into_inner(), terminal(0x28, 12, 0x0806));
    assert_eq!(ether_type_ip4().into_inner(), terminal(0x28, 12, 0x0800));
    assert_eq!(ether_type_ip6().into_inner(), terminal(0x28, 12, 0x86dd));
    let mac = MacAddress::new([0x00, 0x1b, 0x44, 0x11, 0x3a, 0xb7]);
    let src = and(terminal(0x20, 6, 0x001b4411), terminal(0x28, 10, 0x3ab7));
    let dst = and(terminal(0x20, 0, 0x001b4411), terminal(0x28, 4, 0x3ab7));
    assert_eq!(ether_src(mac).into_inner(), src);
    assert_eq!(ether_dst(mac).into_inner(), dst);
    assert_eq!(
        ether_host(mac).into_inner(),
        or(
            and(terminal(0x20, 0, 0x001b4411), terminal(0x28, 4, 0x3ab7)),
            and(terminal(0x20, 6, 0x001b4411), terminal(0x28, 10, 0x3ab7)),
        )
    );
}

#[test]
fn ethernet_first_instructions() {
    let mac = MacAddress::new([0x00, 0x1b, 0x44, 0x11, 0x3a, 0xb7]);
    let program = compiled(ether_src(mac));
    assert_eq!(program[0], Instruction::new(0x20, 0, 0, 6));
    assert_eq!(program[1].k, 0x001b4411);
    assert_eq!(program[2], Instruction::new(0x28, 0, 0, 10));
    assert_eq!(program[3].k, 0x3ab7);
    let mut frame = vec![0u8; 14];
    frame[6..12].copy_from_slice(&[0x00, 0x1b, 0x44, 0x11, 0x3a, 0xb7]);
    assert_eq!(execute(&program, &frame), 14);
    assert_eq!(execute(&compiled(ether_dst(mac)), &frame), 0);
    assert_eq!(execute(&compiled(ether_host(mac)), &frame), 14);
    frame[11] = 0xb8;
    assert_eq!(execute(&program, &frame), 0);
}

#[test]
fn ip4_idioms() {
    let ip = Ipv4Address::new([10, 0, 0, 1]);
    assert_eq!(shift_ip4_ttl(64, 14).into_inner(), terminal(0x30, 22, 64));
    assert_eq!(ip4_ttl(64).into_inner(), terminal(0x30, 22, 64));
    assert_eq!(shift_ip4_proto(6, 18).into_inner(), terminal(0x30, 27, 6));
    assert_eq!(ip4_proto(6).into_inner(), terminal(0x30, 23, 6));
    assert_eq!(shift_ip4_src(ip, 18).into_inner(), terminal(0x20, 30, 0x0a000001));
    assert_eq!(shift_ip4_dst(ip, 18).into_inner(), terminal(0x20, 34, 0x0a000001));
    assert_eq!(
        ip4_src(ip).into_inner(),
        and(terminal(0x28, 12, 0x0800), terminal(0x20, 26, 0x0a000001))
    );
    assert_eq!(
        ip4_dst(ip).into_inner(),
        and(terminal(0x28, 12, 0x0800), terminal(0x20, 30, 0x0a000001))
    );
    assert_eq!(
        shift_ip4_host(ip, 18).into_inner(),
        or(terminal(0x20, 30, 0x0a000001), terminal(0x20, 34, 0x0a000001))
    );
    assert_eq!(
        ip4_host(ip).into_inner(),
        or(terminal(0x20, 26, 0x0a000001), terminal(0x20, 30, 0x0a000001))
    );
}

#[test]
fn ip4_host_keeps_frames_from_or_to_the_address() {
    let program = compiled(ip4_host(Ipv4Address::new([10, 0, 0, 1])));
    assert_eq!(execute(&program, &ip4_frame([10, 0, 0, 1], [192, 168, 0, 7])), 60);
    assert_eq!(execute(&program, &ip4_frame([192, 168, 0, 7], [10, 0, 0, 1])), 60);
    assert_eq!(execute(&program, &ip4_frame([10, 0, 0, 2], [192, 168, 0, 7])), 0);
    assert_eq!(execute(&program, &ip4_frame([192, 168, 0, 7], [10, 0, 0, 2])), 0);
    assert_eq!(execute(&program, &ip4_frame([10, 0, 0, 2], [10, 0, 0, 2])), 0);
}

#[test]
fn ip6_idioms() {
    let ip = six();
    assert_eq!(ip6_address_to_u32_array(ip), [0x20010db8, 1, 0xffeeddcc, 0x11223344]);
    assert_eq!(shift_ip6_hop_limit(64, 18).into_inner(), terminal(0x30, 25, 64));
    assert_eq!(ip6_hop_limit(64).into_inner(), terminal(0x30, 21, 64));
    assert_eq!(shift_ip6_next_header(6, 18).into_inner(), terminal(0x30, 24, 6));
    assert_eq!(ip6_next_header(6).into_inner(), terminal(0x30, 20, 6));
    assert_eq!(shift_ip6_src(ip, 14).into_inner(), six_at(22));
    assert_eq!(shift_ip6_dst(ip, 14).into_inner(), six_at(38));
    assert_eq!(ip6_src(ip).into_inner(), and(terminal(0x28, 12, 0x86dd), six_at(22)));
    assert_eq!(ip6_dst(ip).into_inner(), and(terminal(0x28, 12, 0x86dd), six_at(38)));
    assert_eq!(shift_ip6_host(ip, 0).into_inner(), or(six_at(8), six_at(24)));
    assert_eq!(ip6_host(ip).into_inner(), or(six_at(22), six_at(38)));
}

#[test]
fn ip6_src_keeps_frames_from_the_address() {
    let program = compiled(ip6_src(six()));
    let mut frame = vec![0u8; 62];
    frame[12] = 0x86;
    frame[13] = 0xdd;
    frame[22..38].copy_from_slice(&six().octets);
    assert_eq!(execute(&program, &frame), 62);
    frame[37] = 0x45;
    assert_eq!(execute(&program, &frame), 0);
}

#[test]
fn either_version_idioms() {
    let four = Ipv4Address::new([10, 0, 0, 1]);
    assert_eq!(
        shift_ip_hop_limit(64, 14).into_inner(),
        or(terminal(0x30, 22, 64), terminal(0x30, 21, 64))
    );
    assert_eq!(
        ip_hop_limit(64).into_inner(),
        or(terminal(0x30, 22, 64), terminal(0x30, 21, 64))
    );
    assert_eq!(
        shift_ip_next_header(6, 14).into_inner(),
        or(terminal(0x30, 23, 6), terminal(0x30, 20, 6))
    );
    assert_eq!(ip_next_header(6).into_inner(), or(terminal(0x30, 23, 6), terminal(0x30, 20, 6)));
    assert_eq!(shift_ip_src(IpAddress::V4(four), 14).into_inner(), terminal(0x20, 26, 0x0a000001));
    assert_eq!(shift_ip_src(IpAddress::V6(six()), 14).into_inner(), six_at(22));
    assert_eq!(ip_src(IpAddress::V4(four)).into_inner(), terminal(0x20, 26, 0x0a000001));
    assert_eq!(ip_src(IpAddress::V6(six())).into_inner(), six_at(22));
    assert_eq!(shift_ip_dst(IpAddress::V4(four), 14).into_inner(), terminal(0x20, 30, 0x0a000001));
    assert_eq!(shift_ip_dst(IpAddress::V6(six()), 14).into_inner(), six_at(38));
    assert_eq!(ip_dst(IpAddress::V4(four)).into_inner(), terminal(0x20, 30, 0x0a000001));
    assert_eq!(ip_dst(IpAddress::V6(six())).into_inner(), six_at(38));
    assert_eq!(
        shift_ip_host(IpAddress::V4(four), 14).into_inner(),
        or(terminal(0x20, 26, 0x0a000001), terminal(0x20, 30, 0x0a000001))
    );
    assert_eq!(ip_host(IpAddress::V6(six())).into_inner(), or(six_at(22), six_at(38)));
}

#[test]
fn addresses_are_read_big_endian() {
    assert_eq!(Ipv4Address::new([1, 2, 3, 4]).to_u32(), 0x01020304);
    assert_eq!(Ipv4Address::new([255, 0, 0, 1]).to_u32(), 0xff000001);
    assert_eq!(
        MacAddress::new([1, 2, 3, 4, 5, 6]).to_u32_and_u16(),
        (0x01020304, 0x0506)
    );
    assert_eq!(six().to_u32_array(), [0x20010db8, 1, 0xffeeddcc, 0x11223344]);
}

#[test]
fn idioms_compile_to_their_field_loads() {
    let ip = Ipv4Address::new([10, 0, 0, 1]);
    let program = compiled(ip4_src(ip));
    assert_eq!(
        program,
        vec![
            Instruction::new(0x28, 0, 0, 12),
            Instruction::new(0x15, 0, 4, 0x0800),
            Instruction::new(0x20, 0, 0, 26),
            Instruction::new(0x15, 0, 2, 0x0a000001),
            Instruction::new(0x80, 0, 0, 0),
            Instruction::new(0x16, 0, 0, 0),
            Instruction::new(0x06, 0, 0, 0),
        ]
    );
    // The simplified form tests the destination first.
    let program = compiled(ip4_host(ip));
    assert_eq!(
        program,
        vec![
            Instruction::new(0x20, 0, 0, 30),
            Instruction::new(0x15, 2, 0, 0x0a000001),
            Instruction::new(0x20, 0, 0, 26),
            Instruction::new(0x15, 0, 2, 0x0a000001),
            Instruction::new(0x80, 0, 0, 0),
            Instruction::new(0x16, 0, 0, 0),
            Instruction::new(0x06, 0, 0, 0),
        ]
    );
    assert_eq!(compiled(ip4_ttl(64))[..2], [Instruction::new(0x30, 0, 0, 22), Instruction::new(0x15, 0, 2, 64)]);
    assert_eq!(compiled(ip4_proto(17))[..2], [Instruction::new(0x30, 0, 0, 23), Instruction::new(0x15, 0, 2, 17)]);
    assert_eq!(compiled(ip6_hop_limit(1))[..2], [Instruction::new(0x30, 0, 0, 21), Instruction::new(0x15, 0, 2, 1)]);
    assert_eq!(compiled(ip6_next_header(6))[..2], [Instruction::new(0x30, 0, 0, 20), Instruction::new(0x15, 0, 2, 6)]);
    assert_eq!(compiled(ether_type_arp())[..2], [Instruction::new(0x28, 0, 0, 12), Instruction::new(0x15, 0, 2, 0x0806)]);
    assert_eq!(compiled(ether_type_ip6())[..2], [Instruction::new(0x28, 0, 0, 12), Instruction::new(0x15, 0, 2, 0x86dd)]);
    let program = compiled(ip6_dst(six()));
    assert_eq!(program.len(), 13);
    assert_eq!(program[0], Instruction::new(0x28, 0, 0, 12));
    assert_eq!(program[2], Instruction::new(0x20, 0, 0, 38));
    assert_eq!(program[4], Instruction::new(0x20, 0, 0, 42));
    assert_eq!(program[6], Instruction::new(0x20, 0, 0, 46));
    assert_eq!(program[8], Instruction::new(0x20, 0, 0, 50));
    assert_eq!(program[9], Instruction::new(0x15, 0, 2, 0x11223344));
    assert_eq!(program[10..].to_vec(), vec![
        Instruction::new(0x80, 0, 0, 0),
        Instruction::new(0x16, 0, 0, 0),
        Instruction::new(0x06, 0, 0, 0),
    ]);
}

#[test]
fn a_copy_of_a_predicate_is_the_same_predicate() {
    let p = ip4_host(Ipv4Address::new([10, 0, 0, 1])) & !ether_type_arp();
    let copy = p.clone();
    assert_eq!(copy, p);
    assert_eq!(compiled(copy), compiled(p));
}
