//! Compiled filters, and the hand-written filter on TCP ports.
use crate::cbpf::{
    contradiction, drop_instruction, jump, jump_instruction, load_length_instruction,
    load_u16_at, load_u16_at_x_offset, load_u16_from_m_offset, load_u8_at,
    load_u8_into_x_from_packet_at, plain, return_a_instruction, store_a_in_m_at, teotology,
    Comparison, Instruction, SocketFilterProgram,
};
use crate::consts::{
    ETH_P_IP, ETH_P_IPV6, OFFSET_ETHER_TYPE, OFFSET_IP4_FRAGMENT, OFFSET_IP4_PROTO,
    OFFSET_IP6_NEXT_HEADER, OFFSET_TCP_DST_PORT, OFFSET_TCP_SRC_PORT, SIZE_ETHER_HEADER,
    SIZE_IPV6_HEADER,
};
use crate::laws::{is_jump, lands_within, lemma_classes};
use crate::machine::{
    field, header_length, initial, keeps, lemma_epilogue_steps, lemma_jump_step, lemma_run_go,
    lemma_transfer_steps, length_of, run, State,
};
use crate::program::Program;
use crate::BsError;
use vstd::prelude::*;

verus! {

/// A concrete applicable socket filter: instructions in execution order.
#[derive(Debug)]
pub struct Filter {
    inner: Vec<Instruction>,
}

impl View for Filter {
    type V = Seq<Instruction>;

    closed spec fn view(&self) -> Seq<Instruction> {
        self.inner@
    }
}

impl Filter {
    /// The filter made of `instructions`.
    pub fn from_vec(instructions: Vec<Instruction>) -> (filter: Self)
        ensures
            filter@ == instructions@,
    {
        Self { inner: instructions }
    }

    /// The filter's instructions.
    pub fn into_vec(self) -> (instructions: Vec<Instruction>)
        ensures
            instructions@ == self@,
    {
        self.inner
    }

    /// The program with the filter's instructions.
    pub fn into_program(self) -> (program: Program)
        ensures
            program@ == self@,
    {
        Program::new(self.inner)
    }

    /// Transform the `Filter` into a program that a socket takes, provided
    /// it holds at most 65535 instructions.
    pub fn build(self) -> (program: Result<SocketFilterProgram, BsError>)
        ensures
            self@.len() <= 65535 ==> program is Ok && program->Ok_0@ == self@,
            self@.len() > 65535 ==> program == Err::<SocketFilterProgram, BsError>(
                BsError::FilterProgramOverflow,
            ),
    {
        let prog = self.into_program();
        prog.build()
    }
}

/// The largest number of ports that [`build_tcp_port_filter`] takes: with
/// more, the jump from the IPv6 protocol test to the drop would cover more
/// than 255 instructions.
pub const MAX_TCP_PORTS: usize = 120;

/// The mask of the fragment offset in the IPv4 flags-and-offset field.
pub const IP4_FRAGMENT_OFFSET_MASK: u32 = 0x1fff;

/// The scratch slot that holds the TCP source port.
pub const SOURCE_PORT_SLOT: u32 = 0;

/// The start of the TCP port filter for `n` ports: it tells IPv6 from IPv4,
/// drops what is not TCP or is a later fragment, and leaves the source port
/// in scratch slot 0 and the destination port in the accumulator.
pub open spec fn tcp_port_prologue(n: nat) -> Seq<Instruction> {
    seq![
        plain(0x28, 12),
        jump_instruction(Comparison::Equal, 0x86DD, 0, 6),
        plain(0x30, 20),
        jump_instruction(Comparison::Equal, 6, 0, (2 * n + 14) as u8),
        plain(0x28, 54),
        plain(0x02, 0),
        plain(0x28, 56),
        jump_instruction(Comparison::Always, 0, 9, 0),
        jump_instruction(Comparison::Equal, 0x0800, 0, (2 * n + 9) as u8),
        plain(0x30, 23),
        jump_instruction(Comparison::Equal, 6, 0, (2 * n + 7) as u8),
        plain(0x28, 20),
        jump_instruction(Comparison::AndMask, 0x1fff, (2 * n + 5) as u8, 0),
        plain(0xb1, 14),
        plain(0x48, 14),
        plain(0x02, 0),
        plain(0x48, 16),
    ]
}

/// One test per port, in the order of `ports`: where the accumulator is the
/// port at index `i`, jump `reach - i` instructions forward, else go on.
pub open spec fn port_tests(ports: Seq<u16>, reach: nat) -> Seq<Instruction> {
    Seq::new(
        ports.len(),
        |i: int| jump_instruction(Comparison::Equal, ports[i] as u32, (reach - i) as u8, 0),
    )
}

/// The program that keeps the frames that carry TCP over IPv4 or IPv6 with
/// a source or destination port in `ports`. After the prologue come the
/// tests of the destination port, the reload of the source port, the tests
/// of the source port, the drop and the accept.
pub open spec fn tcp_port_program(ports: Seq<u16>) -> Seq<Instruction> {
    tcp_port_prologue(ports.len()) + port_tests(ports, 2 * ports.len() + 1) + seq![plain(0x60, 0)]
        + port_tests(ports, ports.len()) + seq![
        drop_instruction(),
        load_length_instruction(),
        return_a_instruction(),
    ]
}

/// The protocol number of TCP, `libc::IPPROTO_TCP`, which libc defines as
/// 6.
#[verifier::external_body]
fn ipproto_tcp() -> (protocol: u32)
    ensures
        protocol == 6,
{
    libc::IPPROTO_TCP as u32
}

fn extend(instructions: &mut Vec<Instruction>, part: Vec<Instruction>)
    ensures
        final(instructions)@ == old(instructions)@ + part@,
{
    let mut part = part;
    instructions.append(&mut part);
}

/// Appends one test per port: see [`port_tests`].
fn extend_with_port_tests(instructions: &mut Vec<Instruction>, ports: &[u16], reach: usize)
    requires
        ports@.len() <= reach <= 255,
    ensures
        final(instructions)@ == old(instructions)@ + port_tests(ports@, reach as nat),
{
    let ghost before = instructions@;
    let mut i: usize = 0;
    while i < ports.len()
        invariant
            i <= ports@.len() <= reach <= 255,
            instructions@.len() == before.len() + i,
            forall|j: int| 0 <= j < before.len() ==> instructions@[j] == before[j],
            forall|j: int|
                0 <= j < i ==> instructions@[before.len() + j] == port_tests(
                    ports@,
                    reach as nat,
                )[j],
        decreases ports@.len() - i,
    {
        let accept = reach - i;
        extend(instructions, jump(Comparison::Equal, ports[i] as u32, accept, 0));
        i = i + 1;
    }
    assert(instructions@ =~= before + port_tests(ports@, reach as nat));
}

/// Builds the program that keeps the frames that carry TCP with a source
/// or destination port in `ports`, over IPv4 (first fragments only) or
/// IPv6. With more than 120 ports a jump would be too long.
pub fn build_tcp_port_filter(ports: &[u16]) -> (r: Result<SocketFilterProgram, BsError>)
    ensures
        ports@.len() <= MAX_TCP_PORTS ==> r is Ok && r->Ok_0@ == tcp_port_program(ports@),
        ports@.len() > MAX_TCP_PORTS ==> r == Err::<SocketFilterProgram, BsError>(
            BsError::FilterProgramOverflow,
        ),
        r is Ok ==> lands_within(r->Ok_0@, 0),
        r is Ok ==> forall|frame: Seq<u8>| #[trigger]
            keeps(r->Ok_0@, frame) == if tcp_port_match(ports@, frame) {
                length_of(frame)
            } else {
                0u32
            },
{
    let n = ports.len();
    if n > MAX_TCP_PORTS {
        return Err(BsError::FilterProgramOverflow);
    }
    let tcp = ipproto_tcp();
    let mut instructions: Vec<Instruction> = Vec::new();
    let ipv4_check: usize = 6;
    let port_check: usize = 9;
    // Tell IPv6 from everything else by the EtherType.
    extend(&mut instructions, load_u16_at(OFFSET_ETHER_TYPE));
    extend(&mut instructions, jump(Comparison::Equal, ETH_P_IPV6, 0, ipv4_check));
    // IPv6: drop unless the next header is TCP.
    extend(&mut instructions, load_u8_at(SIZE_ETHER_HEADER + OFFSET_IP6_NEXT_HEADER));
    extend(&mut instructions, jump(Comparison::Equal, tcp, 0, 13 + n + 1 + n));
    // Source port into M[0], destination port into A.
    extend(
        &mut instructions,
        load_u16_at(SIZE_ETHER_HEADER + SIZE_IPV6_HEADER + OFFSET_TCP_SRC_PORT),
    );
    extend(&mut instructions, store_a_in_m_at(SOURCE_PORT_SLOT));
    extend(
        &mut instructions,
        load_u16_at(SIZE_ETHER_HEADER + SIZE_IPV6_HEADER + OFFSET_TCP_DST_PORT),
    );
    // Over the IPv4 branch, to the port tests.
    extend(&mut instructions, jump(Comparison::Always, 0, port_check, 0));
    // Not IPv6: A still holds the EtherType. Drop unless it is IPv4.
    extend(&mut instructions, jump(Comparison::Equal, ETH_P_IP, 0, 8 + n + 1 + n));
    // Drop unless the protocol is TCP.
    extend(&mut instructions, load_u8_at(SIZE_ETHER_HEADER + OFFSET_IP4_PROTO));
    extend(&mut instructions, jump(Comparison::Equal, tcp, 0, 6 + n + 1 + n));
    // Drop every fragment but the first: only that one holds the ports.
    extend(&mut instructions, load_u16_at(SIZE_ETHER_HEADER + OFFSET_IP4_FRAGMENT));
    extend(
        &mut instructions,
        jump(Comparison::AndMask, IP4_FRAGMENT_OFFSET_MASK, 4 + n + 1 + n, 0),
    );
    // X = length of the IPv4 header. Source port into M[0], destination
    // port into A.
    extend(&mut instructions, load_u8_into_x_from_packet_at(SIZE_ETHER_HEADER));
    extend(&mut instructions, load_u16_at_x_offset(SIZE_ETHER_HEADER + OFFSET_TCP_SRC_PORT));
    extend(&mut instructions, store_a_in_m_at(SOURCE_PORT_SLOT));
    extend(&mut instructions, load_u16_at_x_offset(SIZE_ETHER_HEADER + OFFSET_TCP_DST_PORT));
    assert(instructions@ =~= tcp_port_prologue(n as nat));
    // The destination port is in A.
    extend_with_port_tests(&mut instructions, ports, n + n + 1);
    // The same for the source port.
    extend(&mut instructions, load_u16_from_m_offset(SOURCE_PORT_SLOT));
    extend_with_port_tests(&mut instructions, ports, n);
    extend(&mut instructions, contradiction());
    extend(&mut instructions, teotology());
    assert(instructions@ =~= tcp_port_program(ports@));
    proof {
        law_tcp_jumps_land(ports@);
        assert forall|frame: Seq<u8>| #[trigger]
            keeps(tcp_port_program(ports@), frame) == if tcp_port_match(ports@, frame) {
                length_of(frame)
            } else {
                0u32
            } by {
            theorem_tcp_port_filter(ports@, frame);
        }
    }
    Ok(SocketFilterProgram::from_vector(instructions))
}

/// Every jump of the TCP port filter lands inside the program.
pub proof fn law_tcp_jumps_land(ports: Seq<u16>)
    requires
        ports.len() <= MAX_TCP_PORTS,
    ensures
        lands_within(tcp_port_program(ports), 0),
        tcp_port_program(ports).len() == 21 + 2 * ports.len(),
{
    let program = tcp_port_program(ports);
    let n = ports.len() as int;
    let head = tcp_port_prologue(ports.len());
    let first = port_tests(ports, (2 * n + 1) as nat);
    let second = port_tests(ports, n as nat);
    assert(program.len() == 21 + 2 * n);
    lemma_classes();
    assert forall|i: int| 0 <= i < program.len() && is_jump(#[trigger] program[i].code) implies i
        + 1 + program[i].jt <= program.len() && i + 1 + program[i].jf <= program.len() by {
        if i < 17 {
            assert(program[i] == head[i]);
        } else if i < 17 + n {
            assert(program[i] == first[i - 17]);
        } else if i == 17 + n {
            assert(program[i] == plain(0x60, 0));
        } else if i < 18 + 2 * n {
            assert(program[i] == second[i - 18 - n]);
        } else if i == 18 + 2 * n {
            assert(program[i] == drop_instruction());
        } else if i == 19 + 2 * n {
            assert(program[i] == load_length_instruction());
        } else {
            assert(program[i] == return_a_instruction());
        }
    }
}

/// Whether `port` is one of `ports`.
pub open spec fn listed(ports: Seq<u16>, port: u32) -> bool {
    exists|j: int| 0 <= j < ports.len() && #[trigger] ports[j] as u32 == port
}

/// The two ports of the TCP header that starts at `at`, source first;
/// `None` where the frame is too short for them.
pub open spec fn ports_at(frame: Seq<u8>, at: int) -> Option<(u32, u32)> {
    match (field(frame, at, 2), field(frame, at + 2, 2)) {
        (Some(source), Some(destination)) => Some((source, destination)),
        _ => None,
    }
}

/// The TCP ports of a frame, source first. `None` where the frame carries
/// neither IPv6 nor IPv4, does not carry TCP directly in it, is a fragment
/// other than the first, or is too short.
pub open spec fn tcp_ports(frame: Seq<u8>) -> Option<(u32, u32)> {
    if field(frame, 12, 2) == Some(0x86DDu32) {
        if field(frame, 20, 1) == Some(6u32) {
            ports_at(frame, 54)
        } else {
            None
        }
    } else if field(frame, 12, 2) == Some(0x0800u32) {
        if field(frame, 23, 1) == Some(6u32) && field(frame, 20, 2) is Some && field(
            frame,
            20,
            2,
        )->Some_0 & 0x1fff == 0 {
            ports_at(frame, header_length(frame[14]) + 14)
        } else {
            None
        }
    } else {
        None
    }
}

/// Whether the frame carries TCP with a source or destination port in
/// `ports`.
pub open spec fn tcp_port_match(ports: Seq<u16>, frame: Seq<u8>) -> bool {
    match tcp_ports(frame) {
        Some((source, destination)) => listed(ports, destination) || listed(ports, source),
        None => false,
    }
}

/// A run of port tests goes on behind the tests where A is none of the
/// ports, and `reach + 1` instructions behind the first test where it is
/// one.
proof fn lemma_port_tests(
    program: Seq<Instruction>,
    frame: Seq<u8>,
    base: int,
    ports: Seq<u16>,
    reach: nat,
    i: int,
    s: State,
)
    requires
        0 <= base,
        0 <= i <= ports.len() <= reach <= 255,
        base + ports.len() < program.len(),
        forall|j: int|
            0 <= j < ports.len() ==> program[base + j] == #[trigger] port_tests(ports, reach)[j],
    ensures
        run(program, frame, base + i, s) == if exists|j: int|
            i <= j < ports.len() && #[trigger] ports[j] as u32 == s.a {
            run(program, frame, base + reach + 1, s)
        } else {
            run(program, frame, base + ports.len(), s)
        },
    decreases ports.len() - i,
{
    if i < ports.len() {
        let jt = (reach - i) as u8;
        assert(program[base + i] == port_tests(ports, reach)[i]);
        lemma_jump_step(Comparison::Equal, ports[i] as u32, jt, 0, s, frame);
        if s.a == ports[i] as u32 {
            lemma_run_go(program, frame, base + i, s, s, jt as nat);
        } else {
            lemma_run_go(program, frame, base + i, s, s, 0);
            lemma_port_tests(program, frame, base, ports, reach, i + 1, s);
            assert forall|j: int| i <= j < ports.len() && #[trigger] ports[j] as u32
                == s.a implies i + 1 <= j by {}
        }
    }
}

/// From the first port test on, with the destination port in A and the
/// source port in scratch slot 0, the program keeps the whole frame where
/// one of the two is listed and nothing where neither is.
proof fn lemma_port_checks(ports: Seq<u16>, frame: Seq<u8>, s: State)
    requires
        ports.len() <= MAX_TCP_PORTS,
        s.mem.len() == 16,
    ensures
        run(tcp_port_program(ports), frame, 17, s) == if listed(ports, s.a) || listed(
            ports,
            s.mem[0],
        ) {
            length_of(frame)
        } else {
            0u32
        },
{
    let program = tcp_port_program(ports);
    let n = ports.len() as int;
    let first = port_tests(ports, (2 * n + 1) as nat);
    let second = port_tests(ports, n as nat);
    assert(program.len() == 21 + 2 * n);
    assert forall|j: int| 0 <= j < n implies program[17 + j] == #[trigger] first[j] by {}
    assert forall|j: int| 0 <= j < n implies program[18 + n + j] == #[trigger] second[j] by {}
    assert(program[17 + n] == plain(0x60, 0));
    assert(program[18 + 2 * n] == drop_instruction());
    assert(program[19 + 2 * n] == load_length_instruction());
    assert(program[20 + 2 * n] == return_a_instruction());
    // Landing on the accept keeps the whole frame.
    let accept = 19 + 2 * n;
    assert forall|at: State| #[trigger] run(program, frame, accept, at) == length_of(frame) by {
        let loaded = State { a: length_of(frame), ..at };
        lemma_epilogue_steps(at, frame);
        lemma_epilogue_steps(loaded, frame);
        lemma_run_go(program, frame, accept, at, loaded, 0);
    }
    lemma_port_tests(program, frame, 17, ports, (2 * n + 1) as nat, 0, s);
    if !listed(ports, s.a) {
        let reloaded = State { a: s.mem[0], ..s };
        lemma_transfer_steps(0, s, frame);
        lemma_run_go(program, frame, 17 + n, s, reloaded, 0);
        lemma_port_tests(program, frame, 18 + n, ports, n as nat, 0, reloaded);
        if !listed(ports, reloaded.a) {
            lemma_epilogue_steps(reloaded, frame);
        }
    }
}

/// What the IPv6 branch of the program does, from its first instruction on.
proof fn lemma_ipv6_branch(ports: Seq<u16>, frame: Seq<u8>, s: State)
    requires
        ports.len() <= MAX_TCP_PORTS,
        s.mem.len() == 16,
    ensures
        run(tcp_port_program(ports), frame, 2, s) == if field(frame, 20, 1) == Some(6u32) {
            match ports_at(frame, 54) {
                Some((source, destination)) => if listed(ports, destination) || listed(
                    ports,
                    source,
                ) {
                    length_of(frame)
                } else {
                    0u32
                },
                None => 0u32,
            }
        } else {
            0u32
        },
{
    let program = tcp_port_program(ports);
    let n = ports.len() as int;
    let head = tcp_port_prologue(ports.len());
    assert(program.len() == 21 + 2 * n);
    assert forall|j: int| 2 <= j < 8 implies program[j] == head[j] by {}
    assert(program[18 + 2 * n] == drop_instruction());
    lemma_transfer_steps(20, s, frame);
    match field(frame, 20, 1) {
        None => {},
        Some(next_header) => {
            let s3 = State { a: next_header, ..s };
            lemma_run_go(program, frame, 2, s, s3, 0);
            let to_drop = (2 * n + 14) as u8;
            lemma_jump_step(Comparison::Equal, 6, 0, to_drop, s3, frame);
            if next_header == 6 {
                lemma_run_go(program, frame, 3, s3, s3, 0);
                lemma_transfer_steps(54, s3, frame);
                match field(frame, 54, 2) {
                    None => {},
                    Some(source) => {
                        let s5 = State { a: source, ..s3 };
                        lemma_run_go(program, frame, 4, s3, s5, 0);
                        lemma_transfer_steps(0, s5, frame);
                        let s6 = State { mem: s5.mem.update(0, source), ..s5 };
                        lemma_run_go(program, frame, 5, s5, s6, 0);
                        lemma_transfer_steps(56, s6, frame);
                        match field(frame, 56, 2) {
                            None => {},
                            Some(destination) => {
                                let s7 = State { a: destination, ..s6 };
                                lemma_run_go(program, frame, 6, s6, s7, 0);
                                lemma_jump_step(Comparison::Always, 0, 9, 0, s7, frame);
                                lemma_run_go(program, frame, 7, s7, s7, 9);
                                lemma_port_checks(ports, frame, s7);
                            },
                        }
                    },
                }
            } else {
                lemma_run_go(program, frame, 3, s3, s3, to_drop as nat);
                lemma_epilogue_steps(s3, frame);
            }
        },
    }
}

/// What the IPv4 branch of the program does, from the test of the
/// EtherType on.
proof fn lemma_ipv4_branch(ports: Seq<u16>, frame: Seq<u8>, s: State)
    requires
        ports.len() <= MAX_TCP_PORTS,
        s.mem.len() == 16,
    ensures
        run(tcp_port_program(ports), frame, 8, s) == if s.a == 0x0800 && field(frame, 23, 1)
            == Some(6u32) && field(frame, 20, 2) is Some && field(frame, 20, 2)->Some_0 & 0x1fff
            == 0 {
            match ports_at(frame, header_length(frame[14]) + 14) {
                Some((source, destination)) => if listed(ports, destination) || listed(
                    ports,
                    source,
                ) {
                    length_of(frame)
                } else {
                    0u32
                },
                None => 0u32,
            }
        } else {
            0u32
        },
{
    let program = tcp_port_program(ports);
    let n = ports.len() as int;
    let head = tcp_port_prologue(ports.len());
    assert(program.len() == 21 + 2 * n);
    assert forall|j: int| 8 <= j < 17 implies program[j] == head[j] by {}
    assert(program[18 + 2 * n] == drop_instruction());
    let drop = 18 + 2 * n;
    assert forall|at: State| #[trigger] run(program, frame, drop, at) == 0 by {
        lemma_epilogue_steps(at, frame);
    }
    lemma_jump_step(Comparison::Equal, 0x0800, 0, (2 * n + 9) as u8, s, frame);
    if s.a != 0x0800 {
        lemma_run_go(program, frame, 8, s, s, (2 * n + 9) as nat);
    } else {
        lemma_run_go(program, frame, 8, s, s, 0);
        lemma_transfer_steps(23, s, frame);
        match field(frame, 23, 1) {
            None => {},
            Some(protocol) => {
                let s10 = State { a: protocol, ..s };
                lemma_run_go(program, frame, 9, s, s10, 0);
                lemma_jump_step(Comparison::Equal, 6, 0, (2 * n + 7) as u8, s10, frame);
                if protocol != 6 {
                    lemma_run_go(program, frame, 10, s10, s10, (2 * n + 7) as nat);
                } else {
                    lemma_run_go(program, frame, 10, s10, s10, 0);
                    lemma_transfer_steps(20, s10, frame);
                    match field(frame, 20, 2) {
                        None => {},
                        Some(fragment) => {
                            let s12 = State { a: fragment, ..s10 };
                            lemma_run_go(program, frame, 11, s10, s12, 0);
                            lemma_jump_step(
                                Comparison::AndMask,
                                0x1fff,
                                (2 * n + 5) as u8,
                                0,
                                s12,
                                frame,
                            );
                            if fragment & 0x1fff != 0 {
                                lemma_run_go(program, frame, 12, s12, s12, (2 * n + 5) as nat);
                            } else {
                                lemma_run_go(program, frame, 12, s12, s12, 0);
                                lemma_header(ports, frame, s12);
                            }
                        },
                    }
                }
            },
        }
    }
}

/// What the program does from the load of the IPv4 header's length on.
proof fn lemma_header(ports: Seq<u16>, frame: Seq<u8>, s: State)
    requires
        ports.len() <= MAX_TCP_PORTS,
        s.mem.len() == 16,
        frame.len() >= 22,
    ensures
        run(tcp_port_program(ports), frame, 13, s) == match ports_at(
            frame,
            header_length(frame[14]) + 14,
        ) {
            Some((source, destination)) => if listed(ports, destination) || listed(ports, source) {
                length_of(frame)
            } else {
                0u32
            },
            None => 0u32,
        },
{
    let program = tcp_port_program(ports);
    let n = ports.len() as int;
    let head = tcp_port_prologue(ports.len());
    assert(program.len() == 21 + 2 * n);
    assert forall|j: int| 13 <= j < 17 implies program[j] == head[j] by {}
    let x = header_length(frame[14]);
    lemma_transfer_steps(14, s, frame);
    let s14 = State { x, ..s };
    lemma_run_go(program, frame, 13, s, s14, 0);
    lemma_transfer_steps(14, s14, frame);
    match field(frame, x + 14, 2) {
        None => {},
        Some(source) => {
            let s15 = State { a: source, ..s14 };
            lemma_run_go(program, frame, 14, s14, s15, 0);
            lemma_transfer_steps(0, s15, frame);
            let s16 = State { mem: s15.mem.update(0, source), ..s15 };
            lemma_run_go(program, frame, 15, s15, s16, 0);
            lemma_transfer_steps(16, s16, frame);
            match field(frame, x + 16, 2) {
                None => {},
                Some(destination) => {
                    let s17 = State { a: destination, ..s16 };
                    lemma_run_go(program, frame, 16, s16, s17, 0);
                    lemma_port_checks(ports, frame, s17);
                },
            }
        },
    }
}

/// The TCP port filter is right, whatever the registers and the scratch
/// memory hold when it starts: it keeps the whole frame where the frame
/// carries TCP over IPv6, or over IPv4 in a first fragment, with a source or
/// destination port among `ports`, and nothing of any other frame. It reads
/// no register and no scratch slot that it has not written.
pub proof fn theorem_tcp_port_filter_from(ports: Seq<u16>, frame: Seq<u8>, s: State)
    requires
        ports.len() <= MAX_TCP_PORTS,
        s.mem.len() == 16,
    ensures
        run(tcp_port_program(ports), frame, 0, s) == if tcp_port_match(ports, frame) {
            length_of(frame)
        } else {
            0u32
        },
{
    let program = tcp_port_program(ports);
    let n = ports.len() as int;
    let head = tcp_port_prologue(ports.len());
    assert(program.len() == 21 + 2 * n);
    assert forall|j: int| 0 <= j < 2 implies program[j] == head[j] by {}
    lemma_transfer_steps(12, s, frame);
    match field(frame, 12, 2) {
        None => {},
        Some(ether_type) => {
            let s1 = State { a: ether_type, ..s };
            lemma_run_go(program, frame, 0, s, s1, 0);
            lemma_jump_step(Comparison::Equal, 0x86DD, 0, 6, s1, frame);
            if ether_type == 0x86DD {
                lemma_run_go(program, frame, 1, s1, s1, 0);
                lemma_ipv6_branch(ports, frame, s1);
            } else {
                lemma_run_go(program, frame, 1, s1, s1, 6);
                lemma_ipv4_branch(ports, frame, s1);
            }
        },
    }
}

/// The TCP port filter keeps the whole frame where the frame carries TCP
/// over IPv6, or over IPv4 in a first fragment, with a source or destination
/// port among `ports`, and nothing of any other frame.
pub proof fn theorem_tcp_port_filter(ports: Seq<u16>, frame: Seq<u8>)
    requires
        ports.len() <= MAX_TCP_PORTS,
    ensures
        keeps(tcp_port_program(ports), frame) == if tcp_port_match(ports, frame) {
            length_of(frame)
        } else {
            0u32
        },
{
    theorem_tcp_port_filter_from(ports, frame, initial());
}

} // verus!
