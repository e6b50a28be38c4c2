use bs_filter::cbpf::Instruction;
use bs_filter::filter::build_tcp_port_filter;
use bs_filter::machine::execute;
use bs_filter::BsError;

fn tcp4_frame(len: usize, fragment: u16, src: u16, dst: u16) -> Vec<u8> {
    let mut frame = vec![0u8; len];
    frame[12] = 0x08;
    frame[13] = 0x00;
    frame[14] = 0x45;
    frame[20] = (fragment >> 8) as u8;
    frame[21] = (fragment & 0xff) as u8;
    frame[23] = 6;
    frame[34] = (src >> 8) as u8;
    frame[35] = (src & 0xff) as u8;
    frame[36] = (dst >> 8) as u8;
    frame[37] = (dst & 0xff) as u8;
    frame
}

fn tcp6_frame(len: usize, src: u16, dst: u16) -> Vec<u8> {
    let mut frame = vec![0u8; len];
    frame[12] = 0x86;
    frame[13] = 0xdd;
    frame[14] = 0x60;
    frame[20] = 6;
    frame[54] = (src >> 8) as u8;
    frame[55] = (src & 0xff) as u8;
    frame[56] = (dst >> 8) as u8;
    frame[57] = (dst & 0xff) as u8;
    frame
}

fn program(ports: &[u16]) -> Vec<Instruction> {
    build_tcp_port_filter(ports).expect("fits").instructions().clone()
}

#[test]
fn tcp_port_filter_for_two_ports() {
    assert_eq!(
        program(&[80, 443]),
        vec![
            Instruction::new(0x28, 0, 0, 12),
            Instruction::new(0x15, 0, 6, 0x86dd),
            Instruction::new(0x30, 0, 0, 20),
            Instruction::new(0x15, 0, 18, 6),
            Instruction::new(0x28, 0, 0, 54),
            Instruction::new(0x02, 0, 0, 0),
            Instruction::new(0x28, 0, 0, 56),
            Instruction::new(0x05, 9, 0, 0),
            Instruction::new(0x15, 0, 13, 0x0800),
            Instruction::new(0x30, 0, 0, 23),
            Instruction::new(0x15, 0, 11, 6),
            Instruction::new(0x28, 0, 0, 20),
            Instruction::new(0x45, 9, 0, 0x1fff),
            Instruction::new(0xb1, 0, 0, 14),
            Instruction::new(0x48, 0, 0, 14),
            Instruction::new(0x02, 0, 0, 0),
            Instruction::new(0x48, 0, 0, 16),
            Instruction::new(0x15, 5, 0, 80),
            Instruction::new(0x15, 4, 0, 443),
            Instruction::new(0x60, 0, 0, 0),
            Instruction::new(0x15, 2, 0, 80),
            Instruction::new(0x15, 1, 0, 443),
            Instruction::new(0x06, 0, 0, 0),
            Instruction::new(0x80, 0, 0, 0),
            Instruction::new(0x16, 0, 0, 0),
        ]
    );
}

#[test]
fn tcp_port_filter_every_jump_lands_on_the_drop_or_the_accept() {
    for n in [0usize, 1, 2, 5, 120] {
        let ports: Vec<u16> = (0..n as u16).collect();
        let program = program(&ports);
        assert_eq!(program.len(), 21 + 2 * n);
        let drop = program.len() - 3;
        let accept = program.len() - 2;
        assert_eq!(program[drop], Instruction::new(0x06, 0, 0, 0));
        assert_eq!(program[accept], Instruction::new(0x80, 0, 0, 0));
        for i in [3usize, 8, 10] {
            assert_eq!(i + 1 + program[i].jf as usize, drop);
        }
        assert_eq!(12 + 1 + program[12].jt as usize, drop);
        assert_eq!(7 + 1 + program[7].jt as usize, 17);
        for i in 0..n {
            assert_eq!(17 + i + 1 + program[17 + i].jt as usize, accept);
            assert_eq!(program[17 + i].jf, 0);
            assert_eq!(18 + n + i + 1 + program[18 + n + i].jt as usize, accept);
            assert_eq!(program[18 + n + i].jf, 0);
        }
    }
}

#[test]
fn tcp_port_filter_takes_at_most_120_ports() {
    let ports = vec![1u16; 121];
    assert_eq!(build_tcp_port_filter(&ports).err(), Some(BsError::FilterProgramOverflow));
    let ports = vec![1u16; 120];
    let program = build_tcp_port_filter(&ports).expect("fits");
    assert_eq!(program.len(), 261);
    assert_eq!(program.instructions()[3].jf, 254);
}

#[test]
fn tcp_port_filter_ipv4_destination_port() {
    let program = program(&[80, 443]);
    assert_eq!(execute(&program, &tcp4_frame(66, 0, 50000, 443)), 66);
    assert_eq!(execute(&program, &tcp4_frame(66, 0, 50000, 444)), 0);
    assert_eq!(execute(&program, &tcp4_frame(66, 0, 50000, 80)), 66);
    assert_eq!(execute(&program, &tcp4_frame(66, 0, 80, 50000)), 66);
    assert_eq!(execute(&program, &tcp4_frame(66, 0, 443, 50000)), 66);
}

#[test]
fn tcp_port_filter_drops_later_fragments() {
    let program = program(&[80]);
    assert_eq!(execute(&program, &tcp4_frame(66, 0x2001, 80, 80)), 0);
    assert_eq!(execute(&program, &tcp4_frame(66, 0x00b9, 80, 80)), 0);
    assert_eq!(execute(&program, &tcp4_frame(66, 0x1fff, 80, 80)), 0);
}

#[test]
fn tcp_port_filter_keeps_first_fragments() {
    // Only the flags are set: the offset is 0, and the ports are there.
    let program = program(&[80]);
    assert_eq!(execute(&program, &tcp4_frame(66, 0x2000, 80, 80)), 66);
    assert_eq!(execute(&program, &tcp4_frame(66, 0x4000, 1, 80)), 66);
    assert_eq!(execute(&program, &tcp4_frame(66, 0x2000, 1, 2)), 0);
}

#[test]
fn tcp_port_filter_ipv6() {
    let program = program(&[22]);
    assert_eq!(execute(&program, &tcp6_frame(74, 22, 50000)), 74);
    assert_eq!(execute(&program, &tcp6_frame(74, 50000, 22)), 74);
    assert_eq!(execute(&program, &tcp6_frame(74, 50000, 50001)), 0);
}

#[test]
fn tcp_port_filter_drops_what_is_not_tcp() {
    let program = program(&[22, 80]);
    let mut udp = tcp4_frame(66, 0, 22, 80);
    udp[23] = 17;
    assert_eq!(execute(&program, &udp), 0);
    let mut udp6 = tcp6_frame(74, 22, 80);
    udp6[20] = 17;
    assert_eq!(execute(&program, &udp6), 0);
    let mut arp = tcp4_frame(66, 0, 22, 80);
    arp[13] = 0x06;
    assert_eq!(execute(&program, &arp), 0);
    // Too short to hold the ports.
    assert_eq!(execute(&program, &tcp4_frame(66, 0, 22, 80)[..36]), 0);
    assert_eq!(execute(&program, &[]), 0);
}

#[test]
fn tcp_port_filter_follows_the_header_length() {
    let program = program(&[8080]);
    // A header of 24 bytes: the ports lie four bytes further.
    let mut frame = vec![0u8; 70];
    frame[12] = 0x08;
    frame[14] = 0x46;
    frame[23] = 6;
    frame[40] = 0x1f;
    frame[41] = 0x90;
    assert_eq!(execute(&program, &frame), 70);
    frame[14] = 0x45;
    assert_eq!(execute(&program, &frame), 0);
}

#[test]
fn tcp_port_filter_without_ports_drops_everything() {
    let program = program(&[]);
    assert_eq!(program.len(), 21);
    assert_eq!(execute(&program, &tcp4_frame(66, 0, 0, 0)), 0);
    assert_eq!(execute(&program, &tcp6_frame(74, 0, 0)), 0);
}
