use nrv64emu::cpu::{Cpu, Fault, HaltReason};
use nrv64emu::decoder::Instruction;
use nrv64emu::mem::Memory;

fn r_type(funct7: u32, rs2: u32, rs1: u32, funct3: u32, rd: u32, opcode: u32) -> u32 {
    (funct7 << 25) | (rs2 << 20) | (rs1 << 15) | (funct3 << 12) | (rd << 7) | opcode
}

fn i_type(imm: i32, rs1: u32, funct3: u32, rd: u32, opcode: u32) -> u32 {
    (((imm as u32) & 0xFFF) << 20) | (rs1 << 15) | (funct3 << 12) | (rd << 7) | opcode
}

fn s_type(imm: i32, rs2: u32, rs1: u32, funct3: u32) -> u32 {
    let imm = imm as u32;
    (((imm >> 5) & 0x7F) << 25) | (rs2 << 20) | (rs1 << 15) | (funct3 << 12) | ((imm & 0x1F) << 7)
        | 0x23
}

fn b_type(imm: i32, rs2: u32, rs1: u32, funct3: u32) -> u32 {
    let imm = imm as u32;
    (((imm >> 12) & 1) << 31) | (((imm >> 5) & 0x3F) << 25) | (rs2 << 20) | (rs1 << 15)
        | (funct3 << 12) | (((imm >> 1) & 0xF) << 8) | (((imm >> 11) & 1) << 7) | 0x63
}

fn jal(rd: u32, imm: i32) -> u32 {
    let imm = imm as u32;
    (((imm >> 20) & 1) << 31) | (((imm >> 1) & 0x3FF) << 21) | (((imm >> 11) & 1) << 20)
        | (((imm >> 12) & 0xFF) << 12) | (rd << 7) | 0x6F
}

fn lui(rd: u32, imm20: u32) -> u32 {
    (imm20 << 12) | (rd << 7) | 0x37
}

fn addi(rd: u32, rs1: u32, imm: i32) -> u32 {
    i_type(imm, rs1, 0, rd, 0x13)
}

fn load(rd: u32, rs1: u32, imm: i32, funct3: u32) -> u32 {
    i_type(imm, rs1, funct3, rd, 0x03)
}

fn jalr(rd: u32, rs1: u32, imm: i32) -> u32 {
    i_type(imm, rs1, 0, rd, 0x67)
}

fn csr_op(funct3: u32, rd: u32, rs1: u32, csrid: u32) -> u32 {
    (csrid << 20) | (rs1 << 15) | (funct3 << 12) | (rd << 7) | 0x73
}

/// Two instructions leaving `rd` = 0x8000_0000 (not sign-extended).
fn li_high(rd: u32) -> [u32; 2] {
    [addi(rd, 0, 1), i_type(31, rd, 1, rd, 0x13)]
}

/// A fresh CPU with `words` installed as the program at the reset pc.
fn boot(words: &[u32]) -> Cpu {
    let mut cpu = Cpu::new();
    let mut bytes: Vec<u8> = Vec::new();
    for w in words {
        bytes.extend_from_slice(&w.to_le_bytes());
    }
    assert!(cpu.store_bytes(0x1000, &bytes));
    cpu
}

/// Step `n` instructions, each of which must retire.
fn run_ok(cpu: &mut Cpu, n: usize) {
    for _ in 0..n {
        let r = cpu.step();
        assert!(r.is_ok(), "unexpected fault: {:?}", r);
    }
}

/// The pc, read back through the debugger register dump.
fn read_pc(cpu: &Cpu) -> u64 {
    let dump = cpu.debug_register_dump();
    let mut b = [0u8; 8];
    b.copy_from_slice(&dump[256..264]);
    u64::from_le_bytes(b)
}

#[test]
fn decode_is_total_and_repeatable() {
    let words = [
        0u32,
        0xFFFF_FFFF,
        0x7FFFF297,
        0x00000597,
        0x03C58593,
        0xF1402573,
        0x00028067,
        0xDEAD00B7,
        0x12300093,
        0x00000073,
        0x30200073,
        0x0000000F,
    ];
    for w in words {
        let a = Instruction::decode(w);
        let b = Instruction::decode(w);
        assert_eq!(a, b);
    }
    assert_eq!(Instruction::decode(0), Instruction::Invalid(0));
    assert_eq!(Instruction::decode(0x0000000F), Instruction::Fence);
    assert_eq!(Instruction::decode(0x00000073), Instruction::Ecall);
    assert_eq!(Instruction::decode(0x00100073), Instruction::Ebreak);
}

#[test]
fn decode_extracts_fields_and_immediates() {
    // addi x1, x2, -5
    match Instruction::decode(addi(1, 2, -5)) {
        Instruction::Addi(i) => {
            assert_eq!(i.rd, 1);
            assert_eq!(i.rs1, 2);
            assert_eq!(i.funct3, 0);
            assert_eq!(i.imm, -5);
        }
        other => panic!("wrong decode: {:?}", other),
    }
    // auipc t0, 0x7FFFF (first trampoline word)
    match Instruction::decode(0x7FFFF297) {
        Instruction::Auipc(u) => {
            assert_eq!(u.rd, 5);
            assert_eq!(u.imm, 0x7FFFF000);
        }
        other => panic!("wrong decode: {:?}", other),
    }
    // beq x0, x0, 8
    match Instruction::decode(b_type(8, 0, 0, 0)) {
        Instruction::Beq(b) => {
            assert_eq!(b.imm, 8);
        }
        other => panic!("wrong decode: {:?}", other),
    }
    // jal x1, -16
    match Instruction::decode(jal(1, -16)) {
        Instruction::Jal(j) => {
            assert_eq!(j.rd, 1);
            assert_eq!(j.imm, -16);
        }
        other => panic!("wrong decode: {:?}", other),
    }
    // sd x6, 40(x5)
    match Instruction::decode(s_type(40, 6, 5, 3)) {
        Instruction::Store(s) => {
            assert_eq!(s.rs1, 5);
            assert_eq!(s.rs2, 6);
            assert_eq!(s.funct3, 3);
            assert_eq!(s.imm, 40);
        }
        other => panic!("wrong decode: {:?}", other),
    }
}

#[test]
fn register_write_read_and_x0() {
    let mut cpu = boot(&[addi(5, 0, 7), addi(0, 0, 9)]);
    run_ok(&mut cpu, 2);
    assert_eq!(cpu.debug_read_reg(5), 7);
    assert_eq!(cpu.debug_read_reg(0), 0);
}

#[test]
fn memory_store_load_round_trip_all_widths() {
    let mut cpu = Cpu::new();
    for (addr, data) in [
        (0x8000_0000u64, vec![0xA5u8]),
        (0x8000_0010, vec![0x34, 0x12]),
        (0x8000_0020, vec![0x78, 0x56, 0x34, 0x12]),
        (0x8000_0040, vec![1, 2, 3, 4, 5, 6, 7, 8]),
    ] {
        assert!(cpu.debug_write_mem(addr, &data));
        assert_eq!(cpu.debug_read_mem(addr, data.len()), Some(data));
    }
}

#[test]
fn store_then_load_through_instructions() {
    // x5 = 0x80000000; x6 = 0x11223344; sw x6, 0(x5); lw x7, 0(x5)
    let [a, b] = li_high(5);
    let mut cpu = boot(&[
        a,
        b,
        lui(6, 0x11223),
        addi(6, 6, 0x344),
        s_type(0, 6, 5, 2),
        load(7, 5, 0, 2),
    ]);
    run_ok(&mut cpu, 6);
    assert_eq!(cpu.debug_read_reg(6), 0x11223344);
    assert_eq!(cpu.debug_read_reg(7), 0x11223344);
    assert_eq!(
        cpu.debug_read_mem(0x8000_0000, 4),
        Some(vec![0x44, 0x33, 0x22, 0x11])
    );
}

#[test]
fn load_sign_and_zero_extension() {
    let mut cpu = Cpu::new();
    assert!(cpu.debug_write_mem(0x8000_0000, &[0xFF]));
    // x1 = 0x80000000; lb x2, 0(x1); lbu x3, 0(x1)
    let [a, b] = li_high(1);
    let prog: Vec<u8> = [a, b, load(2, 1, 0, 0), load(3, 1, 0, 4)]
        .iter()
        .flat_map(|w| w.to_le_bytes())
        .collect();
    assert!(cpu.store_bytes(0x1000, &prog));
    run_ok(&mut cpu, 4);
    assert_eq!(cpu.debug_read_reg(2), 0xFFFF_FFFF_FFFF_FFFF);
    assert_eq!(cpu.debug_read_reg(3), 0x0000_0000_0000_00FF);
}

#[test]
fn jal_link_and_target() {
    // jal x0, 8: x1 untouched, pc advances by 8
    let mut cpu = boot(&[jal(0, 8)]);
    run_ok(&mut cpu, 1);
    assert_eq!(cpu.debug_read_reg(1), 0);
    assert_eq!(read_pc(&cpu), 0x1008);
    // jal x1, 8: x1 = pc + 4
    let mut cpu = boot(&[jal(1, 8)]);
    run_ok(&mut cpu, 1);
    assert_eq!(cpu.debug_read_reg(1), 0x1004);
    assert_eq!(read_pc(&cpu), 0x1008);
}

#[test]
fn jalr_with_rd_equal_rs1() {
    // x5 = 0x2000; jalr x5, 0(x5)
    let mut cpu = boot(&[lui(5, 0x2), jalr(5, 5, 0)]);
    run_ok(&mut cpu, 2);
    assert_eq!(cpu.debug_read_reg(5), 0x1008);
    assert_eq!(read_pc(&cpu), 0x2000);
}

#[test]
fn branch_taken_and_not_taken() {
    // beq x0, x0, 8 advances pc by 8
    let mut cpu = boot(&[b_type(8, 0, 0, 0)]);
    run_ok(&mut cpu, 1);
    assert_eq!(read_pc(&cpu), 0x1008);
    // bne x0, x0, 8 advances pc by 4
    let mut cpu = boot(&[b_type(8, 0, 0, 1)]);
    run_ok(&mut cpu, 1);
    assert_eq!(read_pc(&cpu), 0x1004);
}

#[test]
fn mret_round_trip() {
    // mstatus := MPP=1 (bit 11), MPIE=1 (bit 7); mepc := 0x80000000; mret
    let [a, b] = li_high(7);
    let prog = [
        addi(6, 0, 1),
        i_type(11, 6, 1, 6, 0x13), // slli x6, x6, 11 -> 0x800
        addi(6, 6, 0x80),          // x6 = 0x880
        csr_op(1, 0, 6, 0x300),    // csrrw x0, mstatus, x6
        a,
        b,
        csr_op(1, 0, 7, 0x341),    // csrrw x0, mepc, x7
        0x30200073u32,             // mret
    ];
    let mut cpu = boot(&prog);
    // after mret the pc is at 0x80000000; put a csrrs there to read mstatus
    let readback = csr_op(2, 8, 0, 0x300); // csrrs x8, mstatus, x0
    assert!(cpu.store_bytes(0x8000_0000, &readback.to_le_bytes()));
    run_ok(&mut cpu, 8);
    assert_eq!(read_pc(&cpu), 0x8000_0000);
    run_ok(&mut cpu, 1);
    let mstatus = cpu.debug_read_reg(8);
    assert_eq!((mstatus >> 3) & 1, 1, "MIE set");
    assert_eq!((mstatus >> 7) & 1, 1, "MPIE set");
    assert_eq!((mstatus >> 11) & 3, 0, "MPP cleared");
}

#[test]
fn trampoline_boot_handoff() {
    let mut cpu = Cpu::new();
    let fdt_base: u64 = 0x1000 + 8 * 8;
    let trampoline = [
        0x297u32 + 0x8000_0000 - 0x1000,
        0x597,
        0x58593 + (((fdt_base as u32) - 4) << 20),
        0xF1402573,
        0x00028067,
    ];
    let bytes: Vec<u8> = trampoline.iter().flat_map(|w| w.to_le_bytes()).collect();
    assert!(cpu.store_bytes(0x1000, &bytes));
    assert!(cpu.store_bytes(0x8000_0000, &[0u8; 8]));
    for _ in 0..5 {
        assert!(cpu.step().is_ok());
    }
    assert_eq!(cpu.debug_read_reg(10), 0, "a0 = hartid");
    assert_eq!(cpu.debug_read_reg(11), 0x1040, "a1 = DTB base");
    assert_eq!(cpu.debug_read_reg(5), 0x8000_0000, "t0 = firmware");
    assert_eq!(read_pc(&cpu), 0x8000_0000);
}

#[test]
fn lui_addi_sign_extension() {
    let mut cpu = boot(&[lui(1, 0xDEAD0), addi(1, 1, 0x123)]);
    run_ok(&mut cpu, 2);
    assert_eq!(cpu.debug_read_reg(1), 0xFFFF_FFFF_DEAD_0123);
}

#[test]
fn uart_transmit_byte() {
    // x1 = 0x10000000; x2 = 'A'; sb x2, 0(x1)
    let mut cpu = boot(&[lui(1, 0x10000), addi(2, 0, 0x41), s_type(0, 2, 1, 0)]);
    let before = cpu.debug_read_mem(0x8000_0000, 16);
    run_ok(&mut cpu, 3);
    assert_eq!(cpu.take_uart_output(), vec![0x41]);
    // the UART window is not guest memory, and guest memory is untouched
    assert_eq!(cpu.debug_read_mem(0x1000_0000, 1), None);
    assert_eq!(cpu.debug_read_mem(0x8000_0000, 16), before);
    // a second take returns nothing more
    assert_eq!(cpu.take_uart_output(), Vec::<u8>::new());
}

#[test]
fn uart_line_status_reads_ready() {
    // x1 = 0x10000005; lb x2, 0(x1)
    let mut cpu = boot(&[lui(1, 0x10000), addi(1, 1, 5), load(2, 1, 0, 0)]);
    run_ok(&mut cpu, 3);
    assert_eq!(cpu.debug_read_reg(2), 0x60);
}

#[test]
fn csrrw_mhartid_reads_zero_and_stays_zero() {
    let mut cpu = boot(&[
        addi(6, 0, 42),
        csr_op(1, 5, 6, 0xF14), // csrrw x5, mhartid, x6
        csr_op(2, 7, 0, 0xF14), // csrrs x7, mhartid, x0
    ]);
    run_ok(&mut cpu, 3);
    assert_eq!(cpu.debug_read_reg(5), 0);
    assert_eq!(cpu.debug_read_reg(7), 0);
}

#[test]
fn amoswap_w_swaps_and_returns_old_value() {
    let mut cpu = Cpu::new();
    assert!(cpu.debug_write_mem(0x8000_0100, &[0xAA, 0, 0, 0]));
    // x7 = 0x80000100; x6 = 0x11223344; amoswap.w x5, x6, (x7)
    let [a, b] = li_high(7);
    let prog: Vec<u8> = [
        a,
        b,
        addi(7, 7, 0x100),
        lui(6, 0x11223),
        addi(6, 6, 0x344),
        r_type(0x04, 6, 7, 2, 5, 0x2F),
    ]
    .iter()
    .flat_map(|w| w.to_le_bytes())
    .collect();
    assert!(cpu.store_bytes(0x1000, &prog));
    run_ok(&mut cpu, 6);
    assert_eq!(
        cpu.debug_read_mem(0x8000_0100, 4),
        Some(vec![0x44, 0x33, 0x22, 0x11])
    );
    assert_eq!(cpu.debug_read_reg(5), 0x0000_0000_0000_00AA);
}

#[test]
fn division_special_cases() {
    let mut cpu = boot(&[
        addi(1, 0, 5),
        r_type(0x01, 0, 1, 5, 2, 0x33), // divu x2, x1, x0
        r_type(0x01, 0, 1, 4, 3, 0x33), // div x3, x1, x0
        r_type(0x01, 0, 1, 7, 4, 0x33), // remu x4, x1, x0
        r_type(0x01, 0, 1, 6, 5, 0x33), // rem x5, x1, x0
        addi(6, 0, -7),
        addi(7, 0, 2),
        r_type(0x01, 7, 6, 4, 8, 0x33), // div x8, x6, x7 = -3
        r_type(0x01, 7, 6, 6, 9, 0x33), // rem x9, x6, x7 = -1
    ]);
    run_ok(&mut cpu, 9);
    assert_eq!(cpu.debug_read_reg(2), u64::MAX);
    assert_eq!(cpu.debug_read_reg(3), u64::MAX);
    assert_eq!(cpu.debug_read_reg(4), 5);
    assert_eq!(cpu.debug_read_reg(5), 5);
    assert_eq!(cpu.debug_read_reg(8), (-3i64) as u64);
    assert_eq!(cpu.debug_read_reg(9), (-1i64) as u64);
}

#[test]
fn shift_arithmetic_right_keeps_sign() {
    let mut cpu = boot(&[
        addi(1, 0, -8),
        i_type(0x401, 1, 5, 2, 0x13), // srai x2, x1, 1
        i_type(0x001, 1, 5, 3, 0x13), // srli x3, x1, 1
    ]);
    run_ok(&mut cpu, 3);
    assert_eq!(cpu.debug_read_reg(2), (-4i64) as u64);
    assert_eq!(cpu.debug_read_reg(3), 0x7FFF_FFFF_FFFF_FFFC);
}

#[test]
fn word_ops_sign_extend_results() {
    let mut cpu = boot(&[
        lui(2, 0x80000),            // x2 = 0xFFFFFFFF80000000
        i_type(0, 2, 0, 3, 0x1B),   // addiw x3, x2, 0: sign-extended low word
        addi(4, 0, 1),
        i_type(31, 4, 1, 5, 0x1B),  // slliw x5, x4, 31
        r_type(0, 2, 2, 0, 6, 0x3B),// addw x6, x2, x2: low words wrap to 0
    ]);
    run_ok(&mut cpu, 5);
    assert_eq!(cpu.debug_read_reg(3), 0xFFFF_FFFF_8000_0000);
    assert_eq!(cpu.debug_read_reg(5), 0xFFFF_FFFF_8000_0000);
    assert_eq!(cpu.debug_read_reg(6), 0);
}

#[test]
fn fault_on_misaligned_fetch() {
    let mut cpu = boot(&[jal(0, 2)]);
    assert!(cpu.step().is_ok());
    match cpu.step() {
        Err(Fault::Fetch { pc }) => assert_eq!(pc, 0x1002),
        other => panic!("expected fetch fault, got {:?}", other),
    }
}

#[test]
fn fault_on_unmapped_load_and_store() {
    let mut cpu = boot(&[lui(1, 0x20000), load(2, 1, 0, 0)]);
    run_ok(&mut cpu, 1);
    match cpu.step() {
        Err(Fault::Load { addr, .. }) => assert_eq!(addr, 0x2000_0000),
        other => panic!("expected load fault, got {:?}", other),
    }
    let mut cpu = boot(&[lui(1, 0x20000), s_type(0, 0, 1, 0)]);
    run_ok(&mut cpu, 1);
    match cpu.step() {
        Err(Fault::Store { addr, .. }) => assert_eq!(addr, 0x2000_0000),
        other => panic!("expected store fault, got {:?}", other),
    }
}

#[test]
fn fault_on_unknown_csr_and_unsupported_instruction() {
    let mut cpu = boot(&[csr_op(1, 0, 0, 0x333)]);
    match cpu.step() {
        Err(Fault::Csr { csr, .. }) => assert_eq!(csr, 0x333),
        other => panic!("expected csr fault, got {:?}", other),
    }
    let mut cpu = boot(&[0x00000073]); // ecall
    match cpu.step() {
        Err(Fault::Unsupported { pc }) => assert_eq!(pc, 0x1000),
        other => panic!("expected unsupported fault, got {:?}", other),
    }
    let mut cpu = boot(&[0]); // not an instruction
    assert!(matches!(cpu.step(), Err(Fault::Unsupported { .. })));
}

#[test]
fn run_spends_its_budget_or_stops_on_fault() {
    // an infinite loop: jal x0, 0
    let mut cpu = boot(&[jal(0, 0)]);
    assert_eq!(cpu.run(100), Ok(HaltReason::Steps));
    assert_eq!(read_pc(&cpu), 0x1000);
    // ecall faults mid-run
    let mut cpu = boot(&[addi(1, 0, 1), 0x00000073]);
    match cpu.run(100) {
        Err(Fault::Unsupported { pc }) => assert_eq!(pc, 0x1004),
        other => panic!("expected fault, got {:?}", other),
    }
    assert_eq!(cpu.debug_read_reg(1), 1);
}

#[test]
fn ebreak_and_fence_continue() {
    let mut cpu = boot(&[0x00100073, 0x0000000F, addi(1, 0, 3)]);
    run_ok(&mut cpu, 3);
    assert_eq!(cpu.debug_read_reg(1), 3);
    assert_eq!(read_pc(&cpu), 0x100C);
}

#[test]
fn register_dump_layout() {
    let mut cpu = boot(&[addi(5, 0, 77)]);
    run_ok(&mut cpu, 1);
    let dump = cpu.debug_register_dump();
    assert_eq!(dump.len(), 520);
    let mut b = [0u8; 8];
    b.copy_from_slice(&dump[5 * 8..5 * 8 + 8]);
    assert_eq!(u64::from_le_bytes(b), 77);
    b.copy_from_slice(&dump[0..8]);
    assert_eq!(u64::from_le_bytes(b), 0);
    assert!(dump[264..].iter().all(|&x| x == 0));
}

#[test]
fn memory_regions_reject_overlap() {
    let mut m = Memory::new();
    assert!(m.add_region(0x1000, 0x1000));
    assert!(!m.add_region(0x1800, 0x1000), "overlapping region refused");
    assert!(!m.add_region(0x1000, 0x10), "same base refused");
    assert!(m.add_region(0x2000, 0x1000), "adjacent region accepted");
    assert!(!m.add_region(0x3000, 0), "empty region refused");
}

#[test]
fn memory_slices_must_lie_in_one_region() {
    let mut m = Memory::new();
    assert!(m.add_region(0x1000, 0x1000));
    assert!(m.add_region(0x2000, 0x1000));
    assert!(m.get_slice_mut(0x1FFC, &[1, 2, 3, 4]));
    assert_eq!(m.get_slice(0x1FFC, 4), Some(vec![1, 2, 3, 4]));
    // the range crosses the region boundary even though both sides exist
    assert_eq!(m.get_slice(0x1FFE, 4), None);
    assert!(!m.get_slice_mut(0x1FFE, &[9, 9, 9, 9]));
    assert_eq!(m.get_slice(0x0FFF, 1), None);
    assert_eq!(m.get_slice(0x2FFF, 2), None);
}

#[test]
fn sltu_and_slt_compare_differently() {
    let mut cpu = boot(&[
        addi(1, 0, -1),                 // x1 = 0xFFFF...FFFF
        addi(2, 0, 1),                  // x2 = 1
        r_type(0, 2, 1, 2, 3, 0x33),    // slt x3, x1, x2 -> 1 (signed -1 < 1)
        r_type(0, 2, 1, 3, 4, 0x33),    // sltu x4, x1, x2 -> 0 (unsigned max)
    ]);
    run_ok(&mut cpu, 4);
    assert_eq!(cpu.debug_read_reg(3), 1);
    assert_eq!(cpu.debug_read_reg(4), 0);
}

#[test]
fn mulh_upper_bits() {
    let mut cpu = boot(&[
        addi(1, 0, -1),                 // x1 = 2^64 - 1
        addi(2, 0, 2),                  // x2 = 2
        r_type(0x01, 2, 1, 1, 3, 0x33), // mulh x3, x1, x2 (unsigned upper)
        r_type(0x01, 2, 1, 0, 4, 0x33), // mul x4, x1, x2 (wrapping low)
    ]);
    run_ok(&mut cpu, 4);
    assert_eq!(cpu.debug_read_reg(3), 1);
    assert_eq!(cpu.debug_read_reg(4), 0xFFFF_FFFF_FFFF_FFFE);
}

#[test]
fn csrrs_and_csrrc_suppress_write_when_rs1_is_x0() {
    let mut cpu = boot(&[
        addi(6, 0, 5),
        csr_op(1, 0, 6, 0x340), // csrrw x0, mscratch, x6: mscratch = 5
        csr_op(2, 5, 0, 0x340), // csrrs x5, mscratch, x0: read, no write
        csr_op(3, 7, 0, 0x340), // csrrc x7, mscratch, x0: read, no write
        csr_op(2, 8, 0, 0x340), // csrrs x8, mscratch, x0: still 5
    ]);
    run_ok(&mut cpu, 5);
    assert_eq!(cpu.debug_read_reg(5), 5);
    assert_eq!(cpu.debug_read_reg(7), 5);
    assert_eq!(cpu.debug_read_reg(8), 5);
}

#[test]
fn csrrs_sets_and_csrrc_clears_bits() {
    let mut cpu = boot(&[
        addi(6, 0, 0b0101),
        csr_op(1, 0, 6, 0x340),  // mscratch = 0b0101
        addi(7, 0, 0b0011),
        csr_op(2, 5, 7, 0x340),  // csrrs x5, mscratch, x7 -> old 0b0101, now 0b0111
        csr_op(3, 8, 7, 0x340),  // csrrc x8, mscratch, x7 -> old 0b0111, now 0b0100
        csr_op(2, 9, 0, 0x340),  // csrrs x9, mscratch, x0 -> 0b0100
    ]);
    run_ok(&mut cpu, 6);
    assert_eq!(cpu.debug_read_reg(5), 0b0101);
    assert_eq!(cpu.debug_read_reg(8), 0b0111);
    assert_eq!(cpu.debug_read_reg(9), 0b0100);
}

#[test]
fn sstatus_and_sie_are_masked_views() {
    let mut cpu = boot(&[
        addi(6, 0, -1),          // x6 = all ones
        csr_op(1, 0, 6, 0x300),  // mstatus = all ones
        csr_op(2, 5, 0, 0x100),  // sstatus read
        addi(7, 0, 0xF),
        csr_op(1, 0, 7, 0x303),  // mideleg = 0xF
        csr_op(1, 0, 6, 0x304),  // mie = all ones
        csr_op(2, 8, 0, 0x104),  // sie read = mie & mideleg
    ]);
    run_ok(&mut cpu, 7);
    assert_eq!(cpu.debug_read_reg(5), 0x30_000d_e122);
    assert_eq!(cpu.debug_read_reg(8), 0xF);
}

#[test]
fn reserved_counters_read_zero_and_ignore_writes() {
    let mut cpu = boot(&[
        addi(6, 0, 99),
        csr_op(1, 5, 6, 0xB03), // csrrw x5, hpmcounter, x6: reads 0, write ignored
        csr_op(2, 7, 0, 0xB03), // still 0
        csr_op(1, 8, 6, 0x320), // mcountinhibit reads 0, write ignored
        csr_op(2, 9, 0, 0x320),
    ]);
    run_ok(&mut cpu, 5);
    assert_eq!(cpu.debug_read_reg(5), 0);
    assert_eq!(cpu.debug_read_reg(7), 0);
    assert_eq!(cpu.debug_read_reg(8), 0);
    assert_eq!(cpu.debug_read_reg(9), 0);
}

#[test]
fn misaligned_data_access_faults() {
    // x5 = 0x80000001 (odd); lh x2, 0(x5) must fault on alignment
    let [a, b] = li_high(5);
    let mut cpu = boot(&[a, b, addi(5, 5, 1), load(2, 5, 0, 1)]);
    run_ok(&mut cpu, 3);
    match cpu.step() {
        Err(Fault::Load { addr, .. }) => assert_eq!(addr, 0x8000_0001),
        other => panic!("expected load fault, got {:?}", other),
    }
}
