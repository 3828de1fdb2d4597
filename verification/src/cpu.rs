//! The interpreter core: architectural register file, program counter,
//! privilege level, machine-mode CSR file, and the memory-mapped
//! load/store path over the sparse physical memory, with one UART
//! transmit window.

use crate::bits::{
    csr_index, csr_index_of, low16, low32, low8, mask6, mulh64, mulh_u64, s_lt64, sdiv64,
    sext16_64, sext32_64, sext8_64, sext_i32_64, shamt5, shamt5_of, shamt6, shamt6_of, sig64,
    sra64, sra64_spec, srem64, sx16, sx32, sx8, sxi32, udiv64, urem64,
};
use crate::decoder::{decode_spec, insn_regs_wf, Instruction};
use crate::mem::{mem_read, mem_wf, mem_write, zeros, Memory};
use vstd::bytes::{
    spec_u16_from_le_bytes, spec_u16_to_le_bytes, spec_u32_from_le_bytes, spec_u32_to_le_bytes,
    spec_u64_from_le_bytes, spec_u64_to_le_bytes, u16_from_le_bytes, u16_to_le_bytes,
    u32_from_le_bytes, u32_to_le_bytes, u64_from_le_bytes, u64_to_le_bytes,
};
use vstd::prelude::*;
use vstd::wrapping::{u32_specs, u64_specs};

verus! {

/// Why `run` stopped.
#[derive(Debug, Clone, Copy, PartialEq, Eq, Structural)]
pub enum HaltReason {
    /// An external halt request.
    Halt,
    /// The step budget was spent.
    Steps,
    /// A breakpoint fired at the given pc.
    Breakpoint(u64),
}

/// A fatal guest event: the condition and its diagnostic context.
#[derive(Debug, Clone, Copy, PartialEq, Eq, Structural)]
pub enum Fault {
    /// The instruction fetch at `pc` failed (misaligned or unmapped).
    Fetch { pc: u64 },
    /// A data load at `addr` failed.
    Load { pc: u64, addr: u64 },
    /// A data store at `addr` failed.
    Store { pc: u64, addr: u64 },
    /// An access to an unmapped CSR.
    Csr { pc: u64, csr: u32 },
    /// An instruction the core does not implement.
    Unsupported { pc: u64 },
}

/// Base of the UART MMIO window.
pub const UART_BASE: u64 = 0x1000_0000;

/// Size of the UART MMIO window.
pub const UART_SIZE: u64 = 0x100;

/// `misa`: RV64 with extensions I, M, A, F, D, S, U.
pub const MISA_RV64G: u64 = 0x8000_0000_0014_1129;

/// The bits of `mstatus` visible through `sstatus`.
pub const SSTATUS_MASK: u64 = 0x30_000d_e122;

/// The architectural state of the hart, as one mathematical value.
#[verifier::ext_equal]
pub ghost struct CpuView {
    pub pc: u64,
    pub regs: Seq<u64>,
    pub privl: u8,
    pub pmpcfg: Seq<u64>,
    pub pmpaddr: Seq<u64>,
    pub mstatus: u64,
    pub misa: u64,
    pub medeleg: u64,
    pub mideleg: u64,
    pub mie: u64,
    pub mip: u64,
    pub mtvec: u64,
    pub mcounteren: u64,
    pub menvcfg: u64,
    pub mscratch: u64,
    pub mepc: u64,
    pub satp: u64,
    pub stimecmp: u64,
    pub mem: Seq<(u64, Seq<u8>)>,
    pub uart: Seq<u8>,
}

/// Well-formed state: 32 registers with x0 pinned to zero, the fixed
/// PMP banks, and a well-formed region list.
pub open spec fn view_wf(s: CpuView) -> bool {
    &&& s.regs.len() == 32
    &&& s.regs[0] == 0
    &&& s.pmpcfg.len() == 4
    &&& s.pmpaddr.len() == 64
    &&& mem_wf(s.mem)
}

/// The register file after writing `v` to `rd`: a write to x0 is
/// suppressed.
pub open spec fn wr_reg(regs: Seq<u64>, rd: u8, v: u64) -> Seq<u64> {
    if rd == 0 {
        regs
    } else {
        regs.update(rd as int, v)
    }
}

/// The state at reset: pc at the boot trampoline, machine mode, zeroed
/// registers and CSRs, one low region for the trampoline and device
/// tree, one high region of 128 MiB for the firmware.
pub open spec fn reset_state() -> CpuView {
    CpuView {
        pc: 0x1000,
        regs: Seq::new(32, |i: int| 0u64),
        privl: 3,
        pmpcfg: Seq::new(4, |i: int| 0u64),
        pmpaddr: Seq::new(64, |i: int| 0u64),
        mstatus: 0,
        misa: MISA_RV64G,
        medeleg: 0,
        mideleg: 0,
        mie: 0,
        mip: 0,
        mtvec: 0,
        mcounteren: 0,
        menvcfg: 0,
        mscratch: 0,
        mepc: 0,
        satp: 0,
        stimecmp: 0,
        mem: seq![(0x1000u64, zeros(0xF000)), (0x8000_0000u64, zeros(0x800_0000))],
        uart: Seq::empty(),
    }
}

/// An address inside the UART MMIO window.
pub open spec fn in_uart(addr: u64) -> bool {
    UART_BASE <= addr < UART_BASE + UART_SIZE
}

/// The CSR identifiers this core maps; any other access is fatal.
pub open spec fn csr_mapped(csr: u32) -> bool {
    ||| csr == 0x100
    ||| csr == 0x104
    ||| csr == 0x14D
    ||| csr == 0x180
    ||| csr == 0x300
    ||| csr == 0x301
    ||| csr == 0x302
    ||| csr == 0x303
    ||| csr == 0x304
    ||| csr == 0x305
    ||| csr == 0x306
    ||| csr == 0x30A
    ||| csr == 0x320
    ||| (0x3A0 <= csr && csr <= 0x3A3)
    ||| (0x3B0 <= csr && csr <= 0x3FF)
    ||| csr == 0x340
    ||| csr == 0x341
    ||| csr == 0x344
    ||| (0xB00 <= csr && csr <= 0xB9F)
    ||| csr == 0xC01
    ||| csr == 0xF14
}

/// The value a CSR read returns; `t` is the host clock sample used by
/// the `time` CSR, the one non-deterministic input.
pub open spec fn sp_read_csr(s: CpuView, csr: u32, t: u64) -> Option<u64> {
    if csr == 0x100 {
        Some(s.mstatus & SSTATUS_MASK)
    } else if csr == 0x104 {
        Some(s.mie & s.mideleg)
    } else if csr == 0x14D {
        Some(s.stimecmp)
    } else if csr == 0x180 {
        Some(s.satp)
    } else if csr == 0x300 {
        Some(s.mstatus)
    } else if csr == 0x301 {
        Some(s.misa)
    } else if csr == 0x302 {
        Some(s.medeleg)
    } else if csr == 0x303 {
        Some(s.mideleg)
    } else if csr == 0x304 {
        Some(s.mie)
    } else if csr == 0x305 {
        Some(s.mtvec)
    } else if csr == 0x306 {
        Some(s.mcounteren)
    } else if csr == 0x30A {
        Some(s.menvcfg)
    } else if csr == 0x320 {
        Some(0)
    } else if 0x3A0 <= csr && csr <= 0x3A3 {
        Some(s.pmpcfg[(csr & 0xF) as int])
    } else if 0x3B0 <= csr && csr <= 0x3FF {
        Some(s.pmpaddr[(csr & 0x3F) as int])
    } else if csr == 0x340 {
        Some(s.mscratch)
    } else if csr == 0x341 {
        Some(s.mepc)
    } else if csr == 0x344 {
        Some(s.mip)
    } else if 0xB00 <= csr && csr <= 0xB9F {
        Some(0)
    } else if csr == 0xC01 {
        Some(t)
    } else if csr == 0xF14 {
        Some(0)
    } else {
        None
    }
}

/// The state after a CSR write. Writes to read-only or reserved mapped
/// identifiers are ignored; a write to an unmapped identifier is fatal
/// (`None`).
pub open spec fn sp_write_csr(s: CpuView, csr: u32, v: u64) -> Option<CpuView> {
    if csr == 0x100 {
        Some(CpuView { mstatus: (s.mstatus & !SSTATUS_MASK) | (v & SSTATUS_MASK), ..s })
    } else if csr == 0x104 {
        Some(CpuView { mie: (v & s.mideleg) | (s.mie & !s.mideleg), ..s })
    } else if csr == 0x14D {
        Some(CpuView { stimecmp: v, ..s })
    } else if csr == 0x180 {
        Some(CpuView { satp: v, ..s })
    } else if csr == 0x300 {
        Some(CpuView { mstatus: v, ..s })
    } else if csr == 0x301 {
        Some(s)
    } else if csr == 0x302 {
        Some(CpuView { medeleg: v, ..s })
    } else if csr == 0x303 {
        Some(CpuView { mideleg: v, ..s })
    } else if csr == 0x304 {
        Some(CpuView { mie: v, ..s })
    } else if csr == 0x305 {
        Some(CpuView { mtvec: v, ..s })
    } else if csr == 0x306 {
        Some(CpuView { mcounteren: v, ..s })
    } else if csr == 0x30A {
        Some(CpuView { menvcfg: v, ..s })
    } else if csr == 0x320 {
        Some(s)
    } else if 0x3A0 <= csr && csr <= 0x3A3 {
        Some(CpuView { pmpcfg: s.pmpcfg.update((csr & 0xF) as int, v), ..s })
    } else if 0x3B0 <= csr && csr <= 0x3FF {
        Some(CpuView { pmpaddr: s.pmpaddr.update((csr & 0x3F) as int, v), ..s })
    } else if csr == 0x340 {
        Some(CpuView { mscratch: v, ..s })
    } else if csr == 0x341 {
        Some(CpuView { mepc: v, ..s })
    } else if csr == 0x344 {
        Some(CpuView { mip: v, ..s })
    } else if 0xB00 <= csr && csr <= 0xB9F {
        Some(s)
    } else if csr == 0xC01 {
        Some(s)
    } else if csr == 0xF14 {
        Some(s)
    } else {
        None
    }
}

/// A byte load through the memory-mapped path.
pub open spec fn sp_load8(s: CpuView, addr: u64) -> Option<u8> {
    if in_uart(addr) {
        if addr - UART_BASE == 5 {
            Some(0x60u8)
        } else {
            None
        }
    } else {
        match mem_read(s.mem, addr, 1) {
            Some(b) => Some(b[0]),
            None => None,
        }
    }
}

/// A halfword load: aligned, little-endian, straight from memory.
pub open spec fn sp_load16(s: CpuView, addr: u64) -> Option<u16> {
    if addr % 2 != 0 {
        None
    } else {
        match mem_read(s.mem, addr, 2) {
            Some(b) => Some(spec_u16_from_le_bytes(b)),
            None => None,
        }
    }
}

/// A word load: aligned, little-endian, straight from memory.
pub open spec fn sp_load32(s: CpuView, addr: u64) -> Option<u32> {
    if addr % 4 != 0 {
        None
    } else {
        match mem_read(s.mem, addr, 4) {
            Some(b) => Some(spec_u32_from_le_bytes(b)),
            None => None,
        }
    }
}

/// A doubleword load: aligned, little-endian, straight from memory.
pub open spec fn sp_load64(s: CpuView, addr: u64) -> Option<u64> {
    if addr % 8 != 0 {
        None
    } else {
        match mem_read(s.mem, addr, 8) {
            Some(b) => Some(spec_u64_from_le_bytes(b)),
            None => None,
        }
    }
}

/// A byte store: memory and UART transmit log after the store. A byte
/// written to the UART transmit holding register is appended to the
/// transmit log; other UART offsets ignore the write.
pub open spec fn sp_store8(s: CpuView, addr: u64, v: u8) -> Option<(Seq<(u64, Seq<u8>)>, Seq<u8>)> {
    if in_uart(addr) {
        if addr - UART_BASE == 0 {
            Some((s.mem, s.uart.push(v)))
        } else {
            Some((s.mem, s.uart))
        }
    } else {
        match mem_write(s.mem, addr, seq![v]) {
            Some(m) => Some((m, s.uart)),
            None => None,
        }
    }
}

/// A halfword store: aligned, little-endian, straight to memory.
pub open spec fn sp_store16(s: CpuView, addr: u64, v: u16) -> Option<
    (Seq<(u64, Seq<u8>)>, Seq<u8>),
> {
    if addr % 2 != 0 {
        None
    } else {
        match mem_write(s.mem, addr, spec_u16_to_le_bytes(v)) {
            Some(m) => Some((m, s.uart)),
            None => None,
        }
    }
}

/// A word store: aligned, little-endian, straight to memory.
pub open spec fn sp_store32(s: CpuView, addr: u64, v: u32) -> Option<
    (Seq<(u64, Seq<u8>)>, Seq<u8>),
> {
    if addr % 4 != 0 {
        None
    } else {
        match mem_write(s.mem, addr, spec_u32_to_le_bytes(v)) {
            Some(m) => Some((m, s.uart)),
            None => None,
        }
    }
}

/// A doubleword store: aligned, little-endian, straight to memory.
pub open spec fn sp_store64(s: CpuView, addr: u64, v: u64) -> Option<
    (Seq<(u64, Seq<u8>)>, Seq<u8>),
> {
    if addr % 8 != 0 {
        None
    } else {
        match mem_write(s.mem, addr, spec_u64_to_le_bytes(v)) {
            Some(m) => Some((m, s.uart)),
            None => None,
        }
    }
}

/// The value of register `r`.
pub open spec fn reg(s: CpuView, r: u8) -> u64 {
    s.regs[r as int]
}

/// The state after a straight-line instruction: pc advanced by four.
pub open spec fn adv4(s: CpuView) -> CpuView {
    CpuView { pc: u64_specs::wrapping_add(s.pc, 4), ..s }
}

/// The state after writing `v` to register `rd` (x0 protected).
pub open spec fn with_rd(s: CpuView, rd: u8, v: u64) -> CpuView {
    CpuView { regs: wr_reg(s.regs, rd, v), ..s }
}

/// 64-bit wrapping addition.
pub open spec fn wadd(a: u64, b: u64) -> u64 {
    u64_specs::wrapping_add(a, b)
}

/// 64-bit wrapping addition of a signed offset.
pub open spec fn wadds(a: u64, d: i64) -> u64 {
    u64_specs::wrapping_add_signed(a, d)
}

/// The state after a conditional branch: the sign-extended offset is
/// taken, or the pc advances by four.
pub open spec fn branch_to(s: CpuView, cond: bool, imm: i32) -> CpuView {
    if cond {
        CpuView { pc: wadds(s.pc, imm as i64), ..s }
    } else {
        adv4(s)
    }
}

/// The state transition of one decoded instruction, or the fault it
/// raises. `t` is the host clock sample seen by a read of the `time`
/// CSR; no other instruction depends on it.
pub open spec fn step_insn(s: CpuView, insn: Instruction, t: u64) -> Result<CpuView, Fault> {
    match insn {
        Instruction::Auipc(u) => Ok(adv4(with_rd(s, u.rd, wadds(s.pc, u.imm as i64)))),
        Instruction::Lui(u) => Ok(adv4(with_rd(s, u.rd, sext_i32_64(u.imm)))),
        Instruction::Addi(i) => Ok(adv4(with_rd(s, i.rd, wadds(reg(s, i.rs1), i.imm as i64)))),
        Instruction::Addiw(i) => Ok(
            adv4(
                with_rd(
                    s,
                    i.rd,
                    sext32_64(u32_specs::wrapping_add_signed(reg(s, i.rs1) as u32, i.imm)),
                ),
            ),
        ),
        Instruction::Slliw(i) => Ok(
            adv4(with_rd(s, i.rd, sext32_64((reg(s, i.rs1) as u32) << shamt5(i.imm)))),
        ),
        Instruction::Srliw(i) => Ok(
            adv4(with_rd(s, i.rd, sext32_64((reg(s, i.rs1) as u32) >> shamt5(i.imm)))),
        ),
        Instruction::Addw(r) => Ok(
            adv4(
                with_rd(
                    s,
                    r.rd,
                    sext32_64(u32_specs::wrapping_add(reg(s, r.rs1) as u32, reg(s, r.rs2) as u32)),
                ),
            ),
        ),
        Instruction::Subw(r) => Ok(
            adv4(
                with_rd(
                    s,
                    r.rd,
                    sext32_64(u32_specs::wrapping_sub(reg(s, r.rs1) as u32, reg(s, r.rs2) as u32)),
                ),
            ),
        ),
        Instruction::Mulw(r) => Ok(
            adv4(
                with_rd(
                    s,
                    r.rd,
                    sext32_64(u32_specs::wrapping_mul(reg(s, r.rs1) as u32, reg(s, r.rs2) as u32)),
                ),
            ),
        ),
        Instruction::Sllw(r) => Ok(
            adv4(
                with_rd(
                    s,
                    r.rd,
                    sext32_64((reg(s, r.rs1) as u32) << ((reg(s, r.rs2) as u32) & 0x1F)),
                ),
            ),
        ),
        Instruction::Andi(i) => Ok(adv4(with_rd(s, i.rd, reg(s, i.rs1) & sext_i32_64(i.imm)))),
        Instruction::Ori(i) => Ok(adv4(with_rd(s, i.rd, reg(s, i.rs1) | sext_i32_64(i.imm)))),
        Instruction::Xori(i) => Ok(adv4(with_rd(s, i.rd, reg(s, i.rs1) ^ sext_i32_64(i.imm)))),
        Instruction::Slli(i) => Ok(adv4(with_rd(s, i.rd, reg(s, i.rs1) << shamt6(i.imm)))),
        Instruction::Srli(i) => Ok(adv4(with_rd(s, i.rd, reg(s, i.rs1) >> shamt6(i.imm)))),
        Instruction::Srai(i) => Ok(adv4(with_rd(s, i.rd, sra64_spec(reg(s, i.rs1), shamt6(i.imm))))),
        Instruction::Slti(i) => Ok(
            adv4(
                with_rd(
                    s,
                    i.rd,
                    if sig64(reg(s, i.rs1)) < i.imm as int {
                        1u64
                    } else {
                        0u64
                    },
                ),
            ),
        ),
        Instruction::Sltiu(i) => Ok(
            adv4(
                with_rd(
                    s,
                    i.rd,
                    if reg(s, i.rs1) < sext_i32_64(i.imm) {
                        1u64
                    } else {
                        0u64
                    },
                ),
            ),
        ),
        Instruction::Slt(r) => Ok(
            adv4(
                with_rd(
                    s,
                    r.rd,
                    if sig64(reg(s, r.rs1)) < sig64(reg(s, r.rs2)) {
                        1u64
                    } else {
                        0u64
                    },
                ),
            ),
        ),
        Instruction::Sltu(r) => Ok(
            adv4(
                with_rd(
                    s,
                    r.rd,
                    if reg(s, r.rs1) < reg(s, r.rs2) {
                        1u64
                    } else {
                        0u64
                    },
                ),
            ),
        ),
        Instruction::Csrrw(i) => {
            let id = csr_index(i.imm);
            match sp_read_csr(s, id, t) {
                None => Err(Fault::Csr { pc: s.pc, csr: id }),
                Some(oldv) => match sp_write_csr(s, id, reg(s, i.rs1)) {
                    None => Err(Fault::Csr { pc: s.pc, csr: id }),
                    Some(s2) => Ok(adv4(with_rd(s2, i.rd, oldv))),
                },
            }
        },
        Instruction::Csrrwi(i) => {
            let id = csr_index(i.imm);
            match sp_read_csr(s, id, t) {
                None => Err(Fault::Csr { pc: s.pc, csr: id }),
                Some(oldv) => match sp_write_csr(s, id, i.rs1 as u64) {
                    None => Err(Fault::Csr { pc: s.pc, csr: id }),
                    Some(s2) => Ok(adv4(with_rd(s2, i.rd, oldv))),
                },
            }
        },
        Instruction::Csrrs(i) => {
            let id = csr_index(i.imm);
            match sp_read_csr(s, id, t) {
                None => Err(Fault::Csr { pc: s.pc, csr: id }),
                Some(oldv) => if i.rs1 == 0 {
                    Ok(adv4(with_rd(s, i.rd, oldv)))
                } else {
                    match sp_write_csr(s, id, oldv | reg(s, i.rs1)) {
                        None => Err(Fault::Csr { pc: s.pc, csr: id }),
                        Some(s2) => Ok(adv4(with_rd(s2, i.rd, oldv))),
                    }
                },
            }
        },
        Instruction::Csrrc(i) => {
            let id = csr_index(i.imm);
            match sp_read_csr(s, id, t) {
                None => Err(Fault::Csr { pc: s.pc, csr: id }),
                Some(oldv) => if i.rs1 == 0 {
                    Ok(adv4(with_rd(s, i.rd, oldv)))
                } else {
                    match sp_write_csr(s, id, oldv & !reg(s, i.rs1)) {
                        None => Err(Fault::Csr { pc: s.pc, csr: id }),
                        Some(s2) => Ok(adv4(with_rd(s2, i.rd, oldv))),
                    }
                },
            }
        },
        Instruction::Add(r) => Ok(adv4(with_rd(s, r.rd, wadd(reg(s, r.rs1), reg(s, r.rs2))))),
        Instruction::Sub(r) => Ok(
            adv4(with_rd(s, r.rd, u64_specs::wrapping_sub(reg(s, r.rs1), reg(s, r.rs2)))),
        ),
        Instruction::And(r) => Ok(adv4(with_rd(s, r.rd, reg(s, r.rs1) & reg(s, r.rs2)))),
        Instruction::Or(r) => Ok(adv4(with_rd(s, r.rd, reg(s, r.rs1) | reg(s, r.rs2)))),
        Instruction::Xor(r) => Ok(adv4(with_rd(s, r.rd, reg(s, r.rs1) ^ reg(s, r.rs2)))),
        Instruction::Srl(r) => Ok(
            adv4(with_rd(s, r.rd, reg(s, r.rs1) >> (reg(s, r.rs2) & 0x3F))),
        ),
        Instruction::Sll(r) => Ok(
            adv4(with_rd(s, r.rd, reg(s, r.rs1) << (reg(s, r.rs2) & 0x3F))),
        ),
        Instruction::Sra(r) => Ok(
            adv4(with_rd(s, r.rd, sra64_spec(reg(s, r.rs1), reg(s, r.rs2) & 0x3F))),
        ),
        Instruction::Mul(r) => Ok(
            adv4(with_rd(s, r.rd, u64_specs::wrapping_mul(reg(s, r.rs1), reg(s, r.rs2)))),
        ),
        Instruction::Mulh(r) => Ok(adv4(with_rd(s, r.rd, mulh_u64(reg(s, r.rs1), reg(s, r.rs2))))),
        Instruction::Div(r) => Ok(
            adv4(with_rd(s, r.rd, crate::bits::sdiv64_spec(reg(s, r.rs1), reg(s, r.rs2)))),
        ),
        Instruction::Divu(r) => Ok(
            adv4(with_rd(s, r.rd, crate::bits::udiv64_spec(reg(s, r.rs1), reg(s, r.rs2)))),
        ),
        Instruction::Rem(r) => Ok(
            adv4(with_rd(s, r.rd, crate::bits::srem64_spec(reg(s, r.rs1), reg(s, r.rs2)))),
        ),
        Instruction::Remu(r) => Ok(
            adv4(with_rd(s, r.rd, crate::bits::urem64_spec(reg(s, r.rs1), reg(s, r.rs2)))),
        ),
        Instruction::Jal(j) => Ok(
            CpuView {
                pc: wadds(s.pc, j.imm as i64),
                regs: wr_reg(s.regs, j.rd, wadd(s.pc, 4)),
                ..s
            },
        ),
        Instruction::Jalr(i) => Ok(
            CpuView {
                pc: wadds(reg(s, i.rs1), i.imm as i64) & !1u64,
                regs: wr_reg(s.regs, i.rd, wadd(s.pc, 4)),
                ..s
            },
        ),
        Instruction::Store(st) => {
            let addr = wadds(reg(s, st.rs1), st.imm as i64);
            let v = reg(s, st.rs2);
            if st.funct3 > 3 {
                Err(Fault::Unsupported { pc: s.pc })
            } else {
                let res = if st.funct3 == 0 {
                    sp_store8(s, addr, v as u8)
                } else if st.funct3 == 1 {
                    sp_store16(s, addr, v as u16)
                } else if st.funct3 == 2 {
                    sp_store32(s, addr, v as u32)
                } else {
                    sp_store64(s, addr, v)
                };
                match res {
                    None => Err(Fault::Store { pc: s.pc, addr }),
                    Some((m, u)) => Ok(adv4(CpuView { mem: m, uart: u, ..s })),
                }
            }
        },
        Instruction::Load(i) => {
            let addr = wadds(reg(s, i.rs1), i.imm as i64);
            let v: Option<u64> = if i.funct3 == 0 {
                match sp_load8(s, addr) {
                    Some(b) => Some(sext8_64(b)),
                    None => None,
                }
            } else if i.funct3 == 1 {
                match sp_load16(s, addr) {
                    Some(h) => Some(sext16_64(h)),
                    None => None,
                }
            } else if i.funct3 == 2 {
                match sp_load32(s, addr) {
                    Some(w) => Some(sext32_64(w)),
                    None => None,
                }
            } else if i.funct3 == 3 {
                sp_load64(s, addr)
            } else if i.funct3 == 4 {
                match sp_load8(s, addr) {
                    Some(b) => Some(b as u64),
                    None => None,
                }
            } else if i.funct3 == 5 {
                match sp_load16(s, addr) {
                    Some(h) => Some(h as u64),
                    None => None,
                }
            } else if i.funct3 == 6 {
                match sp_load32(s, addr) {
                    Some(w) => Some(w as u64),
                    None => None,
                }
            } else {
                sp_load64(s, addr)
            };
            match v {
                None => Err(Fault::Load { pc: s.pc, addr }),
                Some(x) => Ok(adv4(with_rd(s, i.rd, x))),
            }
        },
        Instruction::Mret(_) => {
            let mpp = (s.mstatus >> 11) & 3;
            let mpie = (s.mstatus >> 7) & 1;
            let m = ((s.mstatus & !0x8u64) | (mpie << 3) | 0x80u64) & !0x1800u64;
            Ok(CpuView { mstatus: m, privl: mpp as u8, pc: s.mepc, ..s })
        },
        Instruction::Beq(b) => Ok(branch_to(s, reg(s, b.rs1) == reg(s, b.rs2), b.imm)),
        Instruction::Bne(b) => Ok(branch_to(s, reg(s, b.rs1) != reg(s, b.rs2), b.imm)),
        Instruction::Blt(b) => Ok(
            branch_to(s, sig64(reg(s, b.rs1)) < sig64(reg(s, b.rs2)), b.imm),
        ),
        Instruction::Bge(b) => Ok(
            branch_to(s, sig64(reg(s, b.rs1)) >= sig64(reg(s, b.rs2)), b.imm),
        ),
        Instruction::Bltu(b) => Ok(branch_to(s, reg(s, b.rs1) < reg(s, b.rs2), b.imm)),
        Instruction::Bgeu(b) => Ok(branch_to(s, reg(s, b.rs1) >= reg(s, b.rs2), b.imm)),
        Instruction::Amoswapw(r) => {
            let addr = reg(s, r.rs1);
            match sp_load32(s, addr) {
                None => Err(Fault::Load { pc: s.pc, addr }),
                Some(mv) => match sp_store32(s, addr, reg(s, r.rs2) as u32) {
                    None => Err(Fault::Store { pc: s.pc, addr }),
                    Some((m, u)) => Ok(
                        adv4(with_rd(CpuView { mem: m, uart: u, ..s }, r.rd, sext32_64(mv))),
                    ),
                },
            }
        },
        Instruction::Amoaddw(r) => {
            let addr = reg(s, r.rs1);
            match sp_load32(s, addr) {
                None => Err(Fault::Load { pc: s.pc, addr }),
                Some(mv) => match sp_store32(
                    s,
                    addr,
                    u32_specs::wrapping_add(mv, reg(s, r.rs2) as u32),
                ) {
                    None => Err(Fault::Store { pc: s.pc, addr }),
                    Some((m, u)) => Ok(
                        adv4(with_rd(CpuView { mem: m, uart: u, ..s }, r.rd, sext32_64(mv))),
                    ),
                },
            }
        },
        Instruction::Amoswapd(r) => {
            let addr = reg(s, r.rs1);
            match sp_load64(s, addr) {
                None => Err(Fault::Load { pc: s.pc, addr }),
                Some(mv) => match sp_store64(s, addr, reg(s, r.rs2)) {
                    None => Err(Fault::Store { pc: s.pc, addr }),
                    Some((m, u)) => Ok(adv4(with_rd(CpuView { mem: m, uart: u, ..s }, r.rd, mv))),
                },
            }
        },
        Instruction::Fence => Ok(adv4(s)),
        Instruction::Ebreak => Ok(adv4(s)),
        Instruction::Ecall => Err(Fault::Unsupported { pc: s.pc }),
        Instruction::Sret(_) => Err(Fault::Unsupported { pc: s.pc }),
        Instruction::Wfi(_) => Err(Fault::Unsupported { pc: s.pc }),
        Instruction::Invalid(_) => Err(Fault::Unsupported { pc: s.pc }),
    }
}

/// One whole step: fetch at the pc, decode, execute. On a fault the
/// state is unchanged.
pub open spec fn step_spec(pre: CpuView, t: u64) -> Result<CpuView, Fault> {
    match sp_load32(pre, pre.pc) {
        None => Err(Fault::Fetch { pc: pre.pc }),
        Some(w) => step_insn(pre, decode_spec(w), t),
    }
}

/// What `Cpu::step` guarantees, for the clock sample `t`: on success
/// the new state is the stepped state; on a fault the state is
/// unchanged and the fault is returned.
pub open spec fn step_matches(
    pre: CpuView,
    post: CpuView,
    t: u64,
    r: Result<Option<HaltReason>, Fault>,
) -> bool {
    match step_spec(pre, t) {
        Ok(v) => r == Ok::<Option<HaltReason>, Fault>(None) && post == v,
        Err(f) => r == Err::<Option<HaltReason>, Fault>(f) && post == pre,
    }
}

/// `post` is reached from `pre` by one fault-free step per clock sample
/// in `ts`.
pub open spec fn runs_to(pre: CpuView, post: CpuView, ts: Seq<u64>) -> bool
    decreases ts.len(),
{
    if ts.len() == 0 {
        post == pre
    } else {
        match step_spec(pre, ts[0]) {
            Ok(m) => runs_to(m, post, ts.drop_first()),
            Err(_) => false,
        }
    }
}

/// Extending a fault-free run by one more successful step.
pub proof fn lemma_runs_to_snoc(pre: CpuView, mid: CpuView, post: CpuView, ts: Seq<u64>, t: u64)
    requires
        runs_to(pre, mid, ts),
        step_spec(mid, t) == Ok::<CpuView, Fault>(post),
    ensures
        runs_to(pre, post, ts.push(t)),
    decreases ts.len(),
{
    if ts.len() == 0 {
        assert(mid == pre);
        assert(ts.push(t)[0] == t);
        assert(ts.push(t).drop_first() =~= Seq::<u64>::empty());
        assert(runs_to(post, post, ts.push(t).drop_first()));
        assert(runs_to(pre, post, ts.push(t)));
    } else {
        let m1 = step_spec(pre, ts[0]).unwrap();
        lemma_runs_to_snoc(m1, mid, post, ts.drop_first(), t);
        assert(ts.push(t)[0] == ts[0]);
        assert(ts.push(t).drop_first() =~= ts.drop_first().push(t));
        assert(runs_to(m1, post, ts.push(t).drop_first()));
        assert(runs_to(pre, post, ts.push(t)));
    }
}

/// The host wall clock in 100 ns ticks, as the `time` CSR reports it.
///
/// Relies on `std::time::SystemTime::elapsed` since the epoch; the value
/// depends on the host clock, so nothing is promised of it.
#[verifier::external_body]
pub fn rtc_time() -> (t: u64) {
    match std::time::SystemTime::UNIX_EPOCH.elapsed() {
        Ok(ts) => (ts.as_nanos() / 100) as u64,
        Err(_) => 0,
    }
}

/// The single-hart CPU: it owns its memory and all architectural state.
pub struct Cpu {
    ram: Memory,
    pc: u64,
    regs: Vec<u64>,
    privl: u8,
    pmpcfg: Vec<u64>,
    pmpaddr: Vec<u64>,
    mstatus: u64,
    misa: u64,
    medeleg: u64,
    mideleg: u64,
    mie: u64,
    mip: u64,
    mtvec: u64,
    mcounteren: u64,
    menvcfg: u64,
    mscratch: u64,
    mepc: u64,
    satp: u64,
    stimecmp: u64,
    uart_tx: Vec<u8>,
}

impl View for Cpu {
    type V = CpuView;

    closed spec fn view(&self) -> CpuView {
        CpuView {
            pc: self.pc,
            regs: self.regs@,
            privl: self.privl,
            pmpcfg: self.pmpcfg@,
            pmpaddr: self.pmpaddr@,
            mstatus: self.mstatus,
            misa: self.misa,
            medeleg: self.medeleg,
            mideleg: self.mideleg,
            mie: self.mie,
            mip: self.mip,
            mtvec: self.mtvec,
            mcounteren: self.mcounteren,
            menvcfg: self.menvcfg,
            mscratch: self.mscratch,
            mepc: self.mepc,
            satp: self.satp,
            stimecmp: self.stimecmp,
            mem: self.ram@,
            uart: self.uart_tx@,
        }
    }
}

/// A vector of `n` zero words.
fn zero_words(n: usize) -> (v: Vec<u64>)
    ensures
        v@ =~= Seq::new(n as nat, |i: int| 0u64),
{
    let mut v: Vec<u64> = Vec::new();
    let mut i: usize = 0;
    while i < n
        invariant
            i <= n,
            v@ =~= Seq::new(i as nat, |x: int| 0u64),
        decreases n - i,
    {
        v.push(0u64);
        i += 1;
    }
    v
}

impl Cpu {
    /// The state is well-formed.
    pub open spec fn wf(&self) -> bool {
        view_wf(self@)
    }

    /// A fresh CPU in the reset state.
    pub fn new() -> (r: Cpu)
        ensures
            r.wf(),
            r@ == reset_state(),
    {
        let mut ram = Memory::new();
        let ghost m0 = ram@;
        let ok1 = ram.add_region(0x8000_0000, 128 * 1024 * 1024);
        proof {
            assert(ok1);
            let k1 = choose|k: int|
                0 <= k <= m0.len() && ram@ == #[trigger] m0.insert(
                    k,
                    (0x8000_0000u64, zeros(0x800_0000)),
                );
            assert(ram@ =~~= seq![(0x8000_0000u64, zeros(0x800_0000))]);
        }
        let ghost m1 = ram@;
        let ok2 = ram.add_region(0x1000, 0x10000 - 0x1000);
        proof {
            assert(!crate::mem::overlaps(m1[0], 0x1000, 0xF000));
            assert(ok2);
            let k2 = choose|k: int|
                0 <= k <= m1.len() && ram@ == #[trigger] m1.insert(k, (0x1000u64, zeros(0xF000)));
            if k2 == 1 {
                assert(ram@[0] == m1[0] && ram@[1] == (0x1000u64, zeros(0xF000)));
                assert(ram@[0].0 + ram@[0].1.len() <= ram@[1].0);
                assert(false);
            }
            assert(ram@ =~~= reset_state().mem);
        }
        let cpu = Cpu {
            ram,
            pc: 0x1000,
            regs: zero_words(32),
            privl: 3,
            pmpcfg: zero_words(4),
            pmpaddr: zero_words(64),
            mstatus: 0,
            misa: MISA_RV64G,
            medeleg: 0,
            mideleg: 0,
            mie: 0,
            mip: 0,
            mtvec: 0,
            mcounteren: 0,
            menvcfg: 0,
            mscratch: 0,
            mepc: 0,
            satp: 0,
            stimecmp: 0,
            uart_tx: Vec::new(),
        };
        proof {
            assert(cpu@ =~~= reset_state());
        }
        cpu
    }

    /// Copy `bytes` into guest memory at `offset`. Succeeds exactly when
    /// one region wholly contains the range; the MMIO window is not
    /// reachable this way.
    pub fn store_bytes(&mut self, offset: u64, bytes: &[u8]) -> (r: bool)
        requires
            old(self).wf(),
        ensures
            final(self).wf(),
            r == (mem_write(old(self)@.mem, offset, bytes@) is Some),
            r ==> final(self)@ == (CpuView {
                mem: mem_write(old(self)@.mem, offset, bytes@).unwrap(),
                ..old(self)@
            }),
            !r ==> final(self)@ == old(self)@,
    {
        let r = self.ram.get_slice_mut(offset, bytes);
        proof {
            if r {
                assert(self@ =~~= (CpuView {
                    mem: mem_write(old(self)@.mem, offset, bytes@).unwrap(),
                    ..old(self)@
                }));
            } else {
                assert(self@ =~~= old(self)@);
            }
        }
        r
    }

    /// The debugger register dump: the 32 general-purpose registers,
    /// then the pc, then 32 zeroed floating-point slots, each 8 bytes
    /// little-endian.
    pub fn debug_register_dump(&self) -> (r: Vec<u8>)
        requires
            self.wf(),
        ensures
            r@.len() == 520,
            forall|i: int|
                0 <= i < 32 ==> r@.subrange(8 * i, 8 * i + 8) == spec_u64_to_le_bytes(
                    #[trigger] self@.regs[i],
                ),
            r@.subrange(256, 264) == spec_u64_to_le_bytes(self@.pc),
            forall|i: int| 264 <= i < 520 ==> r@[i] == 0,
    {
        let mut dump: Vec<u8> = Vec::new();
        let mut i: usize = 0;
        while i < 32
            invariant
                self.wf(),
                i <= 32,
                dump@.len() == 8 * i,
                forall|j: int|
                    0 <= j < i ==> dump@.subrange(8 * j, 8 * j + 8) == spec_u64_to_le_bytes(
                        #[trigger] self@.regs[j],
                    ),
            decreases 32 - i,
        {
            let mut b = u64_to_le_bytes(self.regs[i]);
            let ghost pre = dump@;
            dump.append(&mut b);
            proof {
                assert forall|j: int|
                    0 <= j < i + 1 implies dump@.subrange(8 * j, 8 * j + 8) == spec_u64_to_le_bytes(
                    #[trigger] self@.regs[j],
                ) by {
                    if j < i {
                        assert(dump@.subrange(8 * j, 8 * j + 8) =~= pre.subrange(
                            8 * j,
                            8 * j + 8,
                        ));
                    } else {
                        assert(dump@.subrange(8 * j, 8 * j + 8) =~= spec_u64_to_le_bytes(
                            self@.regs[j],
                        ));
                    }
                }
            }
            i += 1;
        }
        let mut pcb = u64_to_le_bytes(self.pc);
        let ghost before_pc = dump@;
        dump.append(&mut pcb);
        proof {
            assert(dump@.subrange(256, 264) =~= spec_u64_to_le_bytes(self@.pc));
            assert forall|j: int|
                0 <= j < 32 implies dump@.subrange(8 * j, 8 * j + 8) == spec_u64_to_le_bytes(
                #[trigger] self@.regs[j],
            ) by {
                assert(dump@.subrange(8 * j, 8 * j + 8) =~= before_pc.subrange(8 * j, 8 * j + 8));
            }
        }
        let ghost with_pc = dump@;
        let mut z: usize = 0;
        while z < 256
            invariant
                z <= 256,
                dump@.len() == 264 + z,
                dump@.subrange(0, 264) =~= with_pc,
                with_pc.len() == 264,
                forall|j: int| 264 <= j < dump@.len() ==> dump@[j] == 0,
            decreases 256 - z,
        {
            dump.push(0u8);
            z += 1;
        }
        proof {
            assert(dump@.subrange(256, 264) =~= with_pc.subrange(256, 264));
            assert forall|j: int|
                0 <= j < 32 implies dump@.subrange(8 * j, 8 * j + 8) == spec_u64_to_le_bytes(
                #[trigger] self@.regs[j],
            ) by {
                assert(dump@.subrange(8 * j, 8 * j + 8) =~= with_pc.subrange(8 * j, 8 * j + 8));
            }
        }
        dump
    }

    /// The value of general-purpose register `idx`.
    pub fn debug_read_reg(&self, idx: usize) -> (r: u64)
        requires
            self.wf(),
            idx < 32,
        ensures
            r == self@.regs[idx as int],
    {
        self.regs[idx]
    }

    /// Debugger memory write: plain guest memory, no MMIO.
    pub fn debug_write_mem(&mut self, addr: u64, data: &[u8]) -> (r: bool)
        requires
            old(self).wf(),
        ensures
            final(self).wf(),
            r == (mem_write(old(self)@.mem, addr, data@) is Some),
            r ==> final(self)@ == (CpuView {
                mem: mem_write(old(self)@.mem, addr, data@).unwrap(),
                ..old(self)@
            }),
            !r ==> final(self)@ == old(self)@,
    {
        self.store_bytes(addr, data)
    }

    /// Debugger memory read: plain guest memory, no MMIO.
    pub fn debug_read_mem(&self, addr: u64, len: usize) -> (r: Option<Vec<u8>>)
        requires
            self.wf(),
        ensures
            match r {
                Some(v) => mem_read(self@.mem, addr, len as nat) == Some(v@),
                None => mem_read(self@.mem, addr, len as nat) is None,
            },
    {
        self.ram.get_slice(addr, len)
    }

    /// Take the bytes written to the UART transmitter so far, clearing
    /// the log; the caller forwards them to the host console.
    pub fn take_uart_output(&mut self) -> (r: Vec<u8>)
        requires
            old(self).wf(),
        ensures
            final(self).wf(),
            r@ == old(self)@.uart,
            final(self)@ == (CpuView { uart: Seq::<u8>::empty(), ..old(self)@ }),
    {
        let n = self.uart_tx.len();
        let mut out: Vec<u8> = Vec::new();
        let mut i: usize = 0;
        while i < n
            invariant
                i <= n,
                n == self.uart_tx.len(),
                self@ == old(self)@,
                out@ =~= self.uart_tx@.subrange(0, i as int),
            decreases n - i,
        {
            out.push(self.uart_tx[i]);
            i += 1;
        }
        self.uart_tx.clear();
        proof {
            assert(out@ =~= old(self)@.uart);
            assert(self@ =~~= (CpuView { uart: Seq::<u8>::empty(), ..old(self)@ }));
        }
        out
    }

    /// Read a CSR. The result is pinned for every identifier but the
    /// host clock (`time`), whose sample `t` is existentially bound.
    fn read_csr(&self, csr: u32) -> (r: Option<u64>)
        requires
            self.wf(),
        ensures
            (r is Some) == csr_mapped(csr),
            exists|t: u64| r == #[trigger] sp_read_csr(self@, csr, t),
    {
        let r: Option<u64> = if csr == 0x100 {
            Some(self.mstatus & SSTATUS_MASK)
        } else if csr == 0x104 {
            Some(self.mie & self.mideleg)
        } else if csr == 0x14D {
            Some(self.stimecmp)
        } else if csr == 0x180 {
            Some(self.satp)
        } else if csr == 0x300 {
            Some(self.mstatus)
        } else if csr == 0x301 {
            Some(self.misa)
        } else if csr == 0x302 {
            Some(self.medeleg)
        } else if csr == 0x303 {
            Some(self.mideleg)
        } else if csr == 0x304 {
            Some(self.mie)
        } else if csr == 0x305 {
            Some(self.mtvec)
        } else if csr == 0x306 {
            Some(self.mcounteren)
        } else if csr == 0x30A {
            Some(self.menvcfg)
        } else if csr == 0x320 {
            Some(0)
        } else if 0x3A0 <= csr && csr <= 0x3A3 {
            proof {
                assert(0x3A0 <= csr && csr <= 0x3A3 ==> csr & 0xF < 4) by (bit_vector);
            }
            Some(self.pmpcfg[(csr & 0xF) as usize])
        } else if 0x3B0 <= csr && csr <= 0x3FF {
            proof {
                assert(csr & 0x3F < 64) by (bit_vector);
            }
            Some(self.pmpaddr[(csr & 0x3F) as usize])
        } else if csr == 0x340 {
            Some(self.mscratch)
        } else if csr == 0x341 {
            Some(self.mepc)
        } else if csr == 0x344 {
            Some(self.mip)
        } else if 0xB00 <= csr && csr <= 0xB9F {
            Some(0)
        } else if csr == 0xC01 {
            let t = rtc_time();
            proof {
                assert(Some(t) == sp_read_csr(self@, csr, t));
            }
            return Some(t);
        } else if csr == 0xF14 {
            Some(0)
        } else {
            None
        };
        proof {
            assert(r == sp_read_csr(self@, csr, 0u64));
        }
        r
    }

    /// Write a CSR; `false` means the identifier is unmapped (fatal).
    fn write_csr(&mut self, csr: u32, val: u64) -> (r: bool)
        requires
            old(self).wf(),
        ensures
            final(self).wf(),
            r == csr_mapped(csr),
            r ==> Some(final(self)@) == sp_write_csr(old(self)@, csr, val),
            !r ==> final(self)@ == old(self)@,
    {
        if csr == 0x100 {
            self.mstatus = (self.mstatus & !SSTATUS_MASK) | (val & SSTATUS_MASK);
        } else if csr == 0x104 {
            let mask = self.mideleg;
            self.mie = (val & mask) | (self.mie & !mask);
        } else if csr == 0x14D {
            self.stimecmp = val;
        } else if csr == 0x180 {
            self.satp = val;
        } else if csr == 0x300 {
            self.mstatus = val;
        } else if csr == 0x301 {
            // misa is a read-only constant; the write is ignored.
        } else if csr == 0x302 {
            self.medeleg = val;
        } else if csr == 0x303 {
            self.mideleg = val;
        } else if csr == 0x304 {
            self.mie = val;
        } else if csr == 0x305 {
            self.mtvec = val;
        } else if csr == 0x306 {
            self.mcounteren = val;
        } else if csr == 0x30A {
            self.menvcfg = val;
        } else if csr == 0x320 {
            // mcountinhibit reads as zero; the write is ignored.
        } else if 0x3A0 <= csr && csr <= 0x3A3 {
            proof {
                assert(0x3A0 <= csr && csr <= 0x3A3 ==> csr & 0xF < 4) by (bit_vector);
            }
            self.pmpcfg[(csr & 0xF) as usize] = val;
        } else if 0x3B0 <= csr && csr <= 0x3FF {
            proof {
                assert(csr & 0x3F < 64) by (bit_vector);
            }
            self.pmpaddr[(csr & 0x3F) as usize] = val;
        } else if csr == 0x340 {
            self.mscratch = val;
        } else if csr == 0x341 {
            self.mepc = val;
        } else if csr == 0x344 {
            self.mip = val;
        } else if 0xB00 <= csr && csr <= 0xB9F {
            // performance counters read as zero; the write is ignored.
        } else if csr == 0xC01 {
            // time is read-only; the write is ignored.
        } else if csr == 0xF14 {
            // mhartid is read-only; the write is ignored.
        } else {
            return false;
        }
        proof {
            assert(Some(self@) =~~= sp_write_csr(old(self)@, csr, val));
        }
        true
    }

    /// UART load: only the line-status register reads, as transmitter
    /// idle and receiver empty.
    fn uart_load_u8(&self, offset: u64) -> (r: Option<u8>)
        ensures
            r == if offset == 5 {
                Some(0x60u8)
            } else {
                None::<u8>
            },
    {
        if offset == 5 {
            Some(0x60)
        } else {
            None
        }
    }

    /// UART store: a byte written to the transmit holding register is
    /// appended to the transmit log; other offsets ignore the write.
    fn uart_store_u8(&mut self, offset: u64, value: u8)
        requires
            old(self).wf(),
        ensures
            final(self).wf(),
            final(self)@ == (CpuView {
                uart: if offset == 0 {
                    old(self)@.uart.push(value)
                } else {
                    old(self)@.uart
                },
                ..old(self)@
            }),
    {
        if offset == 0 {
            self.uart_tx.push(value);
        }
        proof {
            assert(self@ =~~= (CpuView {
                uart: if offset == 0 {
                    old(self)@.uart.push(value)
                } else {
                    old(self)@.uart
                },
                ..old(self)@
            }));
        }
    }

    /// Byte load through the memory-mapped path.
    fn load_u8(&self, address: u64) -> (r: Option<u8>)
        requires
            self.wf(),
        ensures
            r == sp_load8(self@, address),
    {
        if address >= UART_BASE && address < UART_BASE + UART_SIZE {
            return self.uart_load_u8(address - UART_BASE);
        }
        match self.ram.get_slice(address, 1) {
            Some(v) => Some(v[0]),
            None => None,
        }
    }

    /// Aligned halfword load.
    fn load_u16(&self, address: u64) -> (r: Option<u16>)
        requires
            self.wf(),
        ensures
            r == sp_load16(self@, address),
    {
        if address % 2 != 0 {
            return None;
        }
        match self.ram.get_slice(address, 2) {
            Some(v) => Some(u16_from_le_bytes(v.as_slice())),
            None => None,
        }
    }

    /// Aligned word load.
    fn load_u32(&self, address: u64) -> (r: Option<u32>)
        requires
            self.wf(),
        ensures
            r == sp_load32(self@, address),
    {
        if address % 4 != 0 {
            return None;
        }
        match self.ram.get_slice(address, 4) {
            Some(v) => Some(u32_from_le_bytes(v.as_slice())),
            None => None,
        }
    }

    /// Aligned doubleword load.
    fn load_u64(&self, address: u64) -> (r: Option<u64>)
        requires
            self.wf(),
        ensures
            r == sp_load64(self@, address),
    {
        if address % 8 != 0 {
            return None;
        }
        match self.ram.get_slice(address, 8) {
            Some(v) => Some(u64_from_le_bytes(v.as_slice())),
            None => None,
        }
    }

    /// Byte store through the memory-mapped path (UART window included).
    fn store_u8(&mut self, address: u64, value: u8) -> (r: bool)
        requires
            old(self).wf(),
        ensures
            final(self).wf(),
            r == (sp_store8(old(self)@, address, value) is Some),
            r ==> Some((final(self)@.mem, final(self)@.uart)) == sp_store8(
                old(self)@,
                address,
                value,
            ) && final(self)@ == (CpuView {
                mem: final(self)@.mem,
                uart: final(self)@.uart,
                ..old(self)@
            }),
            !r ==> final(self)@ == old(self)@,
    {
        if address >= UART_BASE && address < UART_BASE + UART_SIZE {
            self.uart_store_u8(address - UART_BASE, value);
            return true;
        }
        let mut b: Vec<u8> = Vec::new();
        b.push(value);
        proof {
            assert(b@ =~= seq![value]);
        }
        let r = self.store_bytes(address, b.as_slice());
        r
    }

    /// Aligned halfword store.
    fn store_u16(&mut self, address: u64, value: u16) -> (r: bool)
        requires
            old(self).wf(),
        ensures
            final(self).wf(),
            r == (sp_store16(old(self)@, address, value) is Some),
            r ==> Some((final(self)@.mem, final(self)@.uart)) == sp_store16(
                old(self)@,
                address,
                value,
            ) && final(self)@ == (CpuView {
                mem: final(self)@.mem,
                uart: final(self)@.uart,
                ..old(self)@
            }),
            !r ==> final(self)@ == old(self)@,
    {
        if address % 2 != 0 {
            return false;
        }
        let b = u16_to_le_bytes(value);
        self.store_bytes(address, b.as_slice())
    }

    /// Aligned word store.
    fn store_u32(&mut self, address: u64, value: u32) -> (r: bool)
        requires
            old(self).wf(),
        ensures
            final(self).wf(),
            r == (sp_store32(old(self)@, address, value) is Some),
            r ==> Some((final(self)@.mem, final(self)@.uart)) == sp_store32(
                old(self)@,
                address,
                value,
            ) && final(self)@ == (CpuView {
                mem: final(self)@.mem,
                uart: final(self)@.uart,
                ..old(self)@
            }),
            !r ==> final(self)@ == old(self)@,
    {
        if address % 4 != 0 {
            return false;
        }
        let b = u32_to_le_bytes(value);
        self.store_bytes(address, b.as_slice())
    }

    /// Aligned doubleword store.
    fn store_u64(&mut self, address: u64, value: u64) -> (r: bool)
        requires
            old(self).wf(),
        ensures
            final(self).wf(),
            r == (sp_store64(old(self)@, address, value) is Some),
            r ==> Some((final(self)@.mem, final(self)@.uart)) == sp_store64(
                old(self)@,
                address,
                value,
            ) && final(self)@ == (CpuView {
                mem: final(self)@.mem,
                uart: final(self)@.uart,
                ..old(self)@
            }),
            !r ==> final(self)@ == old(self)@,
    {
        if address % 8 != 0 {
            return false;
        }
        let b = u64_to_le_bytes(value);
        self.store_bytes(address, b.as_slice())
    }

    /// The value of general-purpose register `r`.
    fn get_reg(&self, r: u8) -> (v: u64)
        requires
            self.wf(),
            r < 32,
        ensures
            v == reg(self@, r),
    {
        self.regs[r as usize]
    }

    /// Write `v` to register `rd`; a write to x0 is suppressed.
    fn set_reg(&mut self, rd: u8, v: u64)
        requires
            old(self).wf(),
            rd < 32,
        ensures
            final(self).wf(),
            final(self)@ == with_rd(old(self)@, rd, v),
    {
        if rd != 0 {
            self.regs[rd as usize] = v;
        }
        proof {
            assert(self@ =~~= with_rd(old(self)@, rd, v));
        }
    }

    /// Advance the pc past a straight-line instruction.
    fn advance_pc(&mut self)
        requires
            old(self).wf(),
        ensures
            final(self).wf(),
            final(self)@ == adv4(old(self)@),
    {
        self.pc = self.pc.wrapping_add(4);
        proof {
            assert(self@ =~~= adv4(old(self)@));
        }
    }

    /// Fetch the 32-bit word at `address` through the data-load path and
    /// decode it; `None` when the fetch is misaligned or unmapped.
    fn fetch_and_decode_insn(&self, address: u64) -> (r: Option<Instruction>)
        requires
            self.wf(),
        ensures
            match sp_load32(self@, address) {
                Some(w) => r == Some(decode_spec(w)) && insn_regs_wf(decode_spec(w)),
                None => r is None,
            },
    {
        match self.load_u32(address) {
            Some(w) => Some(Instruction::decode(w)),
            None => None,
        }
    }

    /// Execute one instruction: fetch at the pc, decode, dispatch. On a
    /// fault the state is left unchanged and the fault is returned; a
    /// successful step never yields a halt reason in this core.
    pub fn step(&mut self) -> (r: Result<Option<HaltReason>, Fault>)
        requires
            old(self).wf(),
        ensures
            final(self).wf(),
            exists|t: u64| #[trigger] step_matches(old(self)@, final(self)@, t, r),
    {
        let pc = self.pc;
        let insn = match self.fetch_and_decode_insn(pc) {
            Some(x) => x,
            None => {
                let f = Fault::Fetch { pc };
                proof {
                    assert(step_matches(
                        old(self)@,
                        self@,
                        0u64,
                        Err::<Option<HaltReason>, Fault>(f),
                    ));
                }
                return Err(f);
            },
        };
        proof {
            assert(sp_load32(old(self)@, pc) is Some);
        }
        match insn {
            Instruction::Auipc(u) => {
                let v = self.pc.wrapping_add_signed(u.imm as i64);
                self.set_reg(u.rd, v);
                self.advance_pc();
                proof {
                    assert(self@ =~~= step_insn(old(self)@, insn, 0u64).unwrap());
                    assert(step_matches(old(self)@, self@, 0u64, Ok::<Option<HaltReason>, Fault>(
                        None,
                    )));
                }
                Ok(None)
            },
            Instruction::Lui(u) => {
                let v = sxi32(u.imm);
                self.set_reg(u.rd, v);
                self.advance_pc();
                proof {
                    assert(self@ =~~= step_insn(old(self)@, insn, 0u64).unwrap());
                    assert(step_matches(old(self)@, self@, 0u64, Ok::<Option<HaltReason>, Fault>(
                        None,
                    )));
                }
                Ok(None)
            },
            Instruction::Addi(i) => {
                let v = self.get_reg(i.rs1).wrapping_add_signed(i.imm as i64);
                self.set_reg(i.rd, v);
                self.advance_pc();
                proof {
                    assert(self@ =~~= step_insn(old(self)@, insn, 0u64).unwrap());
                    assert(step_matches(old(self)@, self@, 0u64, Ok::<Option<HaltReason>, Fault>(
                        None,
                    )));
                }
                Ok(None)
            },
            Instruction::Addiw(i) => {
                let v = sx32(low32(self.get_reg(i.rs1)).wrapping_add_signed(i.imm));
                self.set_reg(i.rd, v);
                self.advance_pc();
                proof {
                    assert(self@ =~~= step_insn(old(self)@, insn, 0u64).unwrap());
                    assert(step_matches(old(self)@, self@, 0u64, Ok::<Option<HaltReason>, Fault>(
                        None,
                    )));
                }
                Ok(None)
            },
            Instruction::Slliw(i) => {
                let sh = shamt5_of(i.imm);
                let v = sx32(low32(self.get_reg(i.rs1)) << sh);
                self.set_reg(i.rd, v);
                self.advance_pc();
                proof {
                    assert(self@ =~~= step_insn(old(self)@, insn, 0u64).unwrap());
                    assert(step_matches(old(self)@, self@, 0u64, Ok::<Option<HaltReason>, Fault>(
                        None,
                    )));
                }
                Ok(None)
            },
            Instruction::Srliw(i) => {
                let sh = shamt5_of(i.imm);
                let v = sx32(low32(self.get_reg(i.rs1)) >> sh);
                self.set_reg(i.rd, v);
                self.advance_pc();
                proof {
                    assert(self@ =~~= step_insn(old(self)@, insn, 0u64).unwrap());
                    assert(step_matches(old(self)@, self@, 0u64, Ok::<Option<HaltReason>, Fault>(
                        None,
                    )));
                }
                Ok(None)
            },
            Instruction::Addw(r) => {
                let v = sx32(low32(self.get_reg(r.rs1)).wrapping_add(low32(self.get_reg(r.rs2))));
                self.set_reg(r.rd, v);
                self.advance_pc();
                proof {
                    assert(self@ =~~= step_insn(old(self)@, insn, 0u64).unwrap());
                    assert(step_matches(old(self)@, self@, 0u64, Ok::<Option<HaltReason>, Fault>(
                        None,
                    )));
                }
                Ok(None)
            },
            Instruction::Subw(r) => {
                let v = sx32(low32(self.get_reg(r.rs1)).wrapping_sub(low32(self.get_reg(r.rs2))));
                self.set_reg(r.rd, v);
                self.advance_pc();
                proof {
                    assert(self@ =~~= step_insn(old(self)@, insn, 0u64).unwrap());
                    assert(step_matches(old(self)@, self@, 0u64, Ok::<Option<HaltReason>, Fault>(
                        None,
                    )));
                }
                Ok(None)
            },
            Instruction::Mulw(r) => {
                let v = sx32(low32(self.get_reg(r.rs1)).wrapping_mul(low32(self.get_reg(r.rs2))));
                self.set_reg(r.rd, v);
                self.advance_pc();
                proof {
                    assert(self@ =~~= step_insn(old(self)@, insn, 0u64).unwrap());
                    assert(step_matches(old(self)@, self@, 0u64, Ok::<Option<HaltReason>, Fault>(
                        None,
                    )));
                }
                Ok(None)
            },
            Instruction::Sllw(r) => {
                let sh = crate::bits::mask5_32(low32(self.get_reg(r.rs2)));
                let v = sx32(low32(self.get_reg(r.rs1)) << sh);
                self.set_reg(r.rd, v);
                self.advance_pc();
                proof {
                    assert(self@ =~~= step_insn(old(self)@, insn, 0u64).unwrap());
                    assert(step_matches(old(self)@, self@, 0u64, Ok::<Option<HaltReason>, Fault>(
                        None,
                    )));
                }
                Ok(None)
            },
            Instruction::Andi(i) => {
                let v = self.get_reg(i.rs1) & sxi32(i.imm);
                self.set_reg(i.rd, v);
                self.advance_pc();
                proof {
                    assert(self@ =~~= step_insn(old(self)@, insn, 0u64).unwrap());
                    assert(step_matches(old(self)@, self@, 0u64, Ok::<Option<HaltReason>, Fault>(
                        None,
                    )));
                }
                Ok(None)
            },
            Instruction::Ori(i) => {
                let v = self.get_reg(i.rs1) | sxi32(i.imm);
                self.set_reg(i.rd, v);
                self.advance_pc();
                proof {
                    assert(self@ =~~= step_insn(old(self)@, insn, 0u64).unwrap());
                    assert(step_matches(old(self)@, self@, 0u64, Ok::<Option<HaltReason>, Fault>(
                        None,
                    )));
                }
                Ok(None)
            },
            Instruction::Xori(i) => {
                let v = self.get_reg(i.rs1) ^ sxi32(i.imm);
                self.set_reg(i.rd, v);
                self.advance_pc();
                proof {
                    assert(self@ =~~= step_insn(old(self)@, insn, 0u64).unwrap());
                    assert(step_matches(old(self)@, self@, 0u64, Ok::<Option<HaltReason>, Fault>(
                        None,
                    )));
                }
                Ok(None)
            },
            Instruction::Slli(i) => {
                let sh = shamt6_of(i.imm);
                let v = self.get_reg(i.rs1) << sh;
                self.set_reg(i.rd, v);
                self.advance_pc();
                proof {
                    assert(self@ =~~= step_insn(old(self)@, insn, 0u64).unwrap());
                    assert(step_matches(old(self)@, self@, 0u64, Ok::<Option<HaltReason>, Fault>(
                        None,
                    )));
                }
                Ok(None)
            },
            Instruction::Srli(i) => {
                let sh = shamt6_of(i.imm);
                let v = self.get_reg(i.rs1) >> sh;
                self.set_reg(i.rd, v);
                self.advance_pc();
                proof {
                    assert(self@ =~~= step_insn(old(self)@, insn, 0u64).unwrap());
                    assert(step_matches(old(self)@, self@, 0u64, Ok::<Option<HaltReason>, Fault>(
                        None,
                    )));
                }
                Ok(None)
            },
            Instruction::Srai(i) => {
                let sh = shamt6_of(i.imm);
                let v = sra64(self.get_reg(i.rs1), sh);
                self.set_reg(i.rd, v);
                self.advance_pc();
                proof {
                    assert(self@ =~~= step_insn(old(self)@, insn, 0u64).unwrap());
                    assert(step_matches(old(self)@, self@, 0u64, Ok::<Option<HaltReason>, Fault>(
                        None,
                    )));
                }
                Ok(None)
            },
            Instruction::Slti(i) => {
                let v: u64 = if s_lt64(self.get_reg(i.rs1), sxi32(i.imm)) {
                    1
                } else {
                    0
                };
                proof {
                    crate::bits::lemma_sig_sext_i32(i.imm);
                }
                self.set_reg(i.rd, v);
                self.advance_pc();
                proof {
                    assert(self@ =~~= step_insn(old(self)@, insn, 0u64).unwrap());
                    assert(step_matches(old(self)@, self@, 0u64, Ok::<Option<HaltReason>, Fault>(
                        None,
                    )));
                }
                Ok(None)
            },
            Instruction::Sltiu(i) => {
                let v: u64 = if self.get_reg(i.rs1) < sxi32(i.imm) {
                    1
                } else {
                    0
                };
                self.set_reg(i.rd, v);
                self.advance_pc();
                proof {
                    assert(self@ =~~= step_insn(old(self)@, insn, 0u64).unwrap());
                    assert(step_matches(old(self)@, self@, 0u64, Ok::<Option<HaltReason>, Fault>(
                        None,
                    )));
                }
                Ok(None)
            },
            Instruction::Slt(r) => {
                let v: u64 = if s_lt64(self.get_reg(r.rs1), self.get_reg(r.rs2)) {
                    1
                } else {
                    0
                };
                self.set_reg(r.rd, v);
                self.advance_pc();
                proof {
                    assert(self@ =~~= step_insn(old(self)@, insn, 0u64).unwrap());
                    assert(step_matches(old(self)@, self@, 0u64, Ok::<Option<HaltReason>, Fault>(
                        None,
                    )));
                }
                Ok(None)
            },
            Instruction::Sltu(r) => {
                let v: u64 = if self.get_reg(r.rs1) < self.get_reg(r.rs2) {
                    1
                } else {
                    0
                };
                self.set_reg(r.rd, v);
                self.advance_pc();
                proof {
                    assert(self@ =~~= step_insn(old(self)@, insn, 0u64).unwrap());
                    assert(step_matches(old(self)@, self@, 0u64, Ok::<Option<HaltReason>, Fault>(
                        None,
                    )));
                }
                Ok(None)
            },
            Instruction::Csrrw(i) => {
                let id = csr_index_of(i.imm);
                match self.read_csr(id) {
                    None => {
                        let f = Fault::Csr { pc, csr: id };
                        proof {
                            assert(step_matches(
                                old(self)@,
                                self@,
                                0u64,
                                Err::<Option<HaltReason>, Fault>(f),
                            ));
                        }
                        Err(f)
                    },
                    Some(oldv) => {
                        let ghost tw = choose|t: u64|
                            Some(oldv) == #[trigger] sp_read_csr(old(self)@, id, t);
                        let val = self.get_reg(i.rs1);
                        let okw = self.write_csr(id, val);
                        if !okw {
                            let f = Fault::Csr { pc, csr: id };
                            proof {
                                assert(step_matches(
                                    old(self)@,
                                    self@,
                                    tw,
                                    Err::<Option<HaltReason>, Fault>(f),
                                ));
                            }
                            return Err(f);
                        }
                        self.set_reg(i.rd, oldv);
                        self.advance_pc();
                        proof {
                            assert(self@ =~~= step_insn(old(self)@, insn, tw).unwrap());
                            assert(step_matches(old(self)@, self@, tw, Ok::<
                                Option<HaltReason>,
                                Fault,
                            >(None)));
                        }
                        Ok(None)
                    },
                }
            },
            Instruction::Csrrwi(i) => {
                let id = csr_index_of(i.imm);
                match self.read_csr(id) {
                    None => {
                        let f = Fault::Csr { pc, csr: id };
                        proof {
                            assert(step_matches(
                                old(self)@,
                                self@,
                                0u64,
                                Err::<Option<HaltReason>, Fault>(f),
                            ));
                        }
                        Err(f)
                    },
                    Some(oldv) => {
                        let ghost tw = choose|t: u64|
                            Some(oldv) == #[trigger] sp_read_csr(old(self)@, id, t);
                        let okw = self.write_csr(id, i.rs1 as u64);
                        if !okw {
                            let f = Fault::Csr { pc, csr: id };
                            proof {
                                assert(step_matches(
                                    old(self)@,
                                    self@,
                                    tw,
                                    Err::<Option<HaltReason>, Fault>(f),
                                ));
                            }
                            return Err(f);
                        }
                        self.set_reg(i.rd, oldv);
                        self.advance_pc();
                        proof {
                            assert(self@ =~~= step_insn(old(self)@, insn, tw).unwrap());
                            assert(step_matches(old(self)@, self@, tw, Ok::<
                                Option<HaltReason>,
                                Fault,
                            >(None)));
                        }
                        Ok(None)
                    },
                }
            },
            Instruction::Csrrs(i) => {
                let id = csr_index_of(i.imm);
                match self.read_csr(id) {
                    None => {
                        let f = Fault::Csr { pc, csr: id };
                        proof {
                            assert(step_matches(
                                old(self)@,
                                self@,
                                0u64,
                                Err::<Option<HaltReason>, Fault>(f),
                            ));
                        }
                        Err(f)
                    },
                    Some(oldv) => {
                        let ghost tw = choose|t: u64|
                            Some(oldv) == #[trigger] sp_read_csr(old(self)@, id, t);
                        if i.rs1 != 0 {
                            let val = self.get_reg(i.rs1);
                            let okw = self.write_csr(id, oldv | val);
                            if !okw {
                                let f = Fault::Csr { pc, csr: id };
                                proof {
                                    assert(step_matches(
                                        old(self)@,
                                        self@,
                                        tw,
                                        Err::<Option<HaltReason>, Fault>(f),
                                    ));
                                }
                                return Err(f);
                            }
                        }
                        self.set_reg(i.rd, oldv);
                        self.advance_pc();
                        proof {
                            assert(self@ =~~= step_insn(old(self)@, insn, tw).unwrap());
                            assert(step_matches(old(self)@, self@, tw, Ok::<
                                Option<HaltReason>,
                                Fault,
                            >(None)));
                        }
                        Ok(None)
                    },
                }
            },
            Instruction::Csrrc(i) => {
                let id = csr_index_of(i.imm);
                match self.read_csr(id) {
                    None => {
                        let f = Fault::Csr { pc, csr: id };
                        proof {
                            assert(step_matches(
                                old(self)@,
                                self@,
                                0u64,
                                Err::<Option<HaltReason>, Fault>(f),
                            ));
                        }
                        Err(f)
                    },
                    Some(oldv) => {
                        let ghost tw = choose|t: u64|
                            Some(oldv) == #[trigger] sp_read_csr(old(self)@, id, t);
                        if i.rs1 != 0 {
                            let val = self.get_reg(i.rs1);
                            let okw = self.write_csr(id, oldv & !val);
                            if !okw {
                                let f = Fault::Csr { pc, csr: id };
                                proof {
                                    assert(step_matches(
                                        old(self)@,
                                        self@,
                                        tw,
                                        Err::<Option<HaltReason>, Fault>(f),
                                    ));
                                }
                                return Err(f);
                            }
                        }
                        self.set_reg(i.rd, oldv);
                        self.advance_pc();
                        proof {
                            assert(self@ =~~= step_insn(old(self)@, insn, tw).unwrap());
                            assert(step_matches(old(self)@, self@, tw, Ok::<
                                Option<HaltReason>,
                                Fault,
                            >(None)));
                        }
                        Ok(None)
                    },
                }
            },
            Instruction::Add(r) => {
                let v = self.get_reg(r.rs1).wrapping_add(self.get_reg(r.rs2));
                self.set_reg(r.rd, v);
                self.advance_pc();
                proof {
                    assert(self@ =~~= step_insn(old(self)@, insn, 0u64).unwrap());
                    assert(step_matches(old(self)@, self@, 0u64, Ok::<Option<HaltReason>, Fault>(
                        None,
                    )));
                }
                Ok(None)
            },
            Instruction::Sub(r) => {
                let v = self.get_reg(r.rs1).wrapping_sub(self.get_reg(r.rs2));
                self.set_reg(r.rd, v);
                self.advance_pc();
                proof {
                    assert(self@ =~~= step_insn(old(self)@, insn, 0u64).unwrap());
                    assert(step_matches(old(self)@, self@, 0u64, Ok::<Option<HaltReason>, Fault>(
                        None,
                    )));
                }
                Ok(None)
            },
            Instruction::And(r) => {
                let v = self.get_reg(r.rs1) & self.get_reg(r.rs2);
                self.set_reg(r.rd, v);
                self.advance_pc();
                proof {
                    assert(self@ =~~= step_insn(old(self)@, insn, 0u64).unwrap());
                    assert(step_matches(old(self)@, self@, 0u64, Ok::<Option<HaltReason>, Fault>(
                        None,
                    )));
                }
                Ok(None)
            },
            Instruction::Or(r) => {
                let v = self.get_reg(r.rs1) | self.get_reg(r.rs2);
                self.set_reg(r.rd, v);
                self.advance_pc();
                proof {
                    assert(self@ =~~= step_insn(old(self)@, insn, 0u64).unwrap());
                    assert(step_matches(old(self)@, self@, 0u64, Ok::<Option<HaltReason>, Fault>(
                        None,
                    )));
                }
                Ok(None)
            },
            Instruction::Xor(r) => {
                let v = self.get_reg(r.rs1) ^ self.get_reg(r.rs2);
                self.set_reg(r.rd, v);
                self.advance_pc();
                proof {
                    assert(self@ =~~= step_insn(old(self)@, insn, 0u64).unwrap());
                    assert(step_matches(old(self)@, self@, 0u64, Ok::<Option<HaltReason>, Fault>(
                        None,
                    )));
                }
                Ok(None)
            },
            Instruction::Srl(r) => {
                let sh = mask6(self.get_reg(r.rs2));
                let v = self.get_reg(r.rs1) >> sh;
                self.set_reg(r.rd, v);
                self.advance_pc();
                proof {
                    assert(self@ =~~= step_insn(old(self)@, insn, 0u64).unwrap());
                    assert(step_matches(old(self)@, self@, 0u64, Ok::<Option<HaltReason>, Fault>(
                        None,
                    )));
                }
                Ok(None)
            },
            Instruction::Sll(r) => {
                let sh = mask6(self.get_reg(r.rs2));
                let v = self.get_reg(r.rs1) << sh;
                self.set_reg(r.rd, v);
                self.advance_pc();
                proof {
                    assert(self@ =~~= step_insn(old(self)@, insn, 0u64).unwrap());
                    assert(step_matches(old(self)@, self@, 0u64, Ok::<Option<HaltReason>, Fault>(
                        None,
                    )));
                }
                Ok(None)
            },
            Instruction::Sra(r) => {
                let sh = mask6(self.get_reg(r.rs2));
                let v = sra64(self.get_reg(r.rs1), sh);
                self.set_reg(r.rd, v);
                self.advance_pc();
                proof {
                    assert(self@ =~~= step_insn(old(self)@, insn, 0u64).unwrap());
                    assert(step_matches(old(self)@, self@, 0u64, Ok::<Option<HaltReason>, Fault>(
                        None,
                    )));
                }
                Ok(None)
            },
            Instruction::Mul(r) => {
                let v = self.get_reg(r.rs1).wrapping_mul(self.get_reg(r.rs2));
                self.set_reg(r.rd, v);
                self.advance_pc();
                proof {
                    assert(self@ =~~= step_insn(old(self)@, insn, 0u64).unwrap());
                    assert(step_matches(old(self)@, self@, 0u64, Ok::<Option<HaltReason>, Fault>(
                        None,
                    )));
                }
                Ok(None)
            },
            Instruction::Mulh(r) => {
                let v = mulh64(self.get_reg(r.rs1), self.get_reg(r.rs2));
                self.set_reg(r.rd, v);
                self.advance_pc();
                proof {
                    assert(self@ =~~= step_insn(old(self)@, insn, 0u64).unwrap());
                    assert(step_matches(old(self)@, self@, 0u64, Ok::<Option<HaltReason>, Fault>(
                        None,
                    )));
                }
                Ok(None)
            },
            Instruction::Div(r) => {
                let v = sdiv64(self.get_reg(r.rs1), self.get_reg(r.rs2));
                self.set_reg(r.rd, v);
                self.advance_pc();
                proof {
                    assert(self@ =~~= step_insn(old(self)@, insn, 0u64).unwrap());
                    assert(step_matches(old(self)@, self@, 0u64, Ok::<Option<HaltReason>, Fault>(
                        None,
                    )));
                }
                Ok(None)
            },
            Instruction::Divu(r) => {
                let v = udiv64(self.get_reg(r.rs1), self.get_reg(r.rs2));
                self.set_reg(r.rd, v);
                self.advance_pc();
                proof {
                    assert(self@ =~~= step_insn(old(self)@, insn, 0u64).unwrap());
                    assert(step_matches(old(self)@, self@, 0u64, Ok::<Option<HaltReason>, Fault>(
                        None,
                    )));
                }
                Ok(None)
            },
            Instruction::Rem(r) => {
                let v = srem64(self.get_reg(r.rs1), self.get_reg(r.rs2));
                self.set_reg(r.rd, v);
                self.advance_pc();
                proof {
                    assert(self@ =~~= step_insn(old(self)@, insn, 0u64).unwrap());
                    assert(step_matches(old(self)@, self@, 0u64, Ok::<Option<HaltReason>, Fault>(
                        None,
                    )));
                }
                Ok(None)
            },
            Instruction::Remu(r) => {
                let v = urem64(self.get_reg(r.rs1), self.get_reg(r.rs2));
                self.set_reg(r.rd, v);
                self.advance_pc();
                proof {
                    assert(self@ =~~= step_insn(old(self)@, insn, 0u64).unwrap());
                    assert(step_matches(old(self)@, self@, 0u64, Ok::<Option<HaltReason>, Fault>(
                        None,
                    )));
                }
                Ok(None)
            },
            Instruction::Jal(j) => {
                let link = self.pc.wrapping_add(4);
                self.set_reg(j.rd, link);
                let target = pc.wrapping_add_signed(j.imm as i64);
                self.pc = target;
                proof {
                    assert(self@ =~~= step_insn(old(self)@, insn, 0u64).unwrap());
                    assert(step_matches(old(self)@, self@, 0u64, Ok::<Option<HaltReason>, Fault>(
                        None,
                    )));
                }
                Ok(None)
            },
            Instruction::Jalr(i) => {
                let link = self.pc.wrapping_add(4);
                let target = self.get_reg(i.rs1).wrapping_add_signed(i.imm as i64) & !1u64;
                self.pc = target;
                self.set_reg(i.rd, link);
                proof {
                    assert(self@ =~~= step_insn(old(self)@, insn, 0u64).unwrap());
                    assert(step_matches(old(self)@, self@, 0u64, Ok::<Option<HaltReason>, Fault>(
                        None,
                    )));
                }
                Ok(None)
            },
            Instruction::Store(st) => {
                let addr = self.get_reg(st.rs1).wrapping_add_signed(st.imm as i64);
                let v = self.get_reg(st.rs2);
                if st.funct3 > 3 {
                    let f = Fault::Unsupported { pc };
                    proof {
                        assert(step_matches(
                            old(self)@,
                            self@,
                            0u64,
                            Err::<Option<HaltReason>, Fault>(f),
                        ));
                    }
                    return Err(f);
                }
                let ok = if st.funct3 == 0 {
                    self.store_u8(addr, low8(v))
                } else if st.funct3 == 1 {
                    self.store_u16(addr, low16(v))
                } else if st.funct3 == 2 {
                    self.store_u32(addr, low32(v))
                } else {
                    self.store_u64(addr, v)
                };
                if ok {
                    self.advance_pc();
                    proof {
                        assert(self@ =~~= step_insn(old(self)@, insn, 0u64).unwrap());
                        assert(step_matches(old(self)@, self@, 0u64, Ok::<
                            Option<HaltReason>,
                            Fault,
                        >(None)));
                    }
                    Ok(None)
                } else {
                    let f = Fault::Store { pc, addr };
                    proof {
                        assert(step_matches(
                            old(self)@,
                            self@,
                            0u64,
                            Err::<Option<HaltReason>, Fault>(f),
                        ));
                    }
                    Err(f)
                }
            },
            Instruction::Load(i) => {
                let addr = self.get_reg(i.rs1).wrapping_add_signed(i.imm as i64);
                let v: Option<u64> = if i.funct3 == 0 {
                    match self.load_u8(addr) {
                        Some(b) => Some(sx8(b)),
                        None => None,
                    }
                } else if i.funct3 == 1 {
                    match self.load_u16(addr) {
                        Some(h) => Some(sx16(h)),
                        None => None,
                    }
                } else if i.funct3 == 2 {
                    match self.load_u32(addr) {
                        Some(w) => Some(sx32(w)),
                        None => None,
                    }
                } else if i.funct3 == 3 {
                    self.load_u64(addr)
                } else if i.funct3 == 4 {
                    match self.load_u8(addr) {
                        Some(b) => Some(b as u64),
                        None => None,
                    }
                } else if i.funct3 == 5 {
                    match self.load_u16(addr) {
                        Some(h) => Some(h as u64),
                        None => None,
                    }
                } else if i.funct3 == 6 {
                    match self.load_u32(addr) {
                        Some(w) => Some(w as u64),
                        None => None,
                    }
                } else {
                    self.load_u64(addr)
                };
                match v {
                    Some(x) => {
                        self.set_reg(i.rd, x);
                        self.advance_pc();
                        proof {
                            assert(self@ =~~= step_insn(old(self)@, insn, 0u64).unwrap());
                            assert(step_matches(old(self)@, self@, 0u64, Ok::<
                                Option<HaltReason>,
                                Fault,
                            >(None)));
                        }
                        Ok(None)
                    },
                    None => {
                        let f = Fault::Load { pc, addr };
                        proof {
                            assert(step_matches(
                                old(self)@,
                                self@,
                                0u64,
                                Err::<Option<HaltReason>, Fault>(f),
                            ));
                        }
                        Err(f)
                    },
                }
            },
            Instruction::Mret(_) => {
                let mpp = (self.mstatus >> 11) & 3;
                let mpie = (self.mstatus >> 7) & 1;
                proof {
                    let m = self.mstatus;
                    assert((m >> 11) & 3 < 4) by (bit_vector);
                }
                self.mstatus = ((self.mstatus & !0x8u64) | (mpie << 3) | 0x80u64) & !0x1800u64;
                self.privl = mpp as u8;
                self.pc = self.mepc;
                proof {
                    assert(self@ =~~= step_insn(old(self)@, insn, 0u64).unwrap());
                    assert(step_matches(old(self)@, self@, 0u64, Ok::<Option<HaltReason>, Fault>(
                        None,
                    )));
                }
                Ok(None)
            },
            Instruction::Beq(b) => {
                let taken = self.get_reg(b.rs1) == self.get_reg(b.rs2);
                if taken {
                    self.pc = self.pc.wrapping_add_signed(b.imm as i64);
                } else {
                    self.advance_pc();
                }
                proof {
                    assert(self@ =~~= step_insn(old(self)@, insn, 0u64).unwrap());
                    assert(step_matches(old(self)@, self@, 0u64, Ok::<Option<HaltReason>, Fault>(
                        None,
                    )));
                }
                Ok(None)
            },
            Instruction::Bne(b) => {
                let taken = self.get_reg(b.rs1) != self.get_reg(b.rs2);
                if taken {
                    self.pc = self.pc.wrapping_add_signed(b.imm as i64);
                } else {
                    self.advance_pc();
                }
                proof {
                    assert(self@ =~~= step_insn(old(self)@, insn, 0u64).unwrap());
                    assert(step_matches(old(self)@, self@, 0u64, Ok::<Option<HaltReason>, Fault>(
                        None,
                    )));
                }
                Ok(None)
            },
            Instruction::Blt(b) => {
                let taken = s_lt64(self.get_reg(b.rs1), self.get_reg(b.rs2));
                if taken {
                    self.pc = self.pc.wrapping_add_signed(b.imm as i64);
                } else {
                    self.advance_pc();
                }
                proof {
                    assert(self@ =~~= step_insn(old(self)@, insn, 0u64).unwrap());
                    assert(step_matches(old(self)@, self@, 0u64, Ok::<Option<HaltReason>, Fault>(
                        None,
                    )));
                }
                Ok(None)
            },
            Instruction::Bge(b) => {
                let taken = !s_lt64(self.get_reg(b.rs1), self.get_reg(b.rs2));
                if taken {
                    self.pc = self.pc.wrapping_add_signed(b.imm as i64);
                } else {
                    self.advance_pc();
                }
                proof {
                    assert(self@ =~~= step_insn(old(self)@, insn, 0u64).unwrap());
                    assert(step_matches(old(self)@, self@, 0u64, Ok::<Option<HaltReason>, Fault>(
                        None,
                    )));
                }
                Ok(None)
            },
            Instruction::Bltu(b) => {
                let taken = self.get_reg(b.rs1) < self.get_reg(b.rs2);
                if taken {
                    self.pc = self.pc.wrapping_add_signed(b.imm as i64);
                } else {
                    self.advance_pc();
                }
                proof {
                    assert(self@ =~~= step_insn(old(self)@, insn, 0u64).unwrap());
                    assert(step_matches(old(self)@, self@, 0u64, Ok::<Option<HaltReason>, Fault>(
                        None,
                    )));
                }
                Ok(None)
            },
            Instruction::Bgeu(b) => {
                let taken = self.get_reg(b.rs1) >= self.get_reg(b.rs2);
                if taken {
                    self.pc = self.pc.wrapping_add_signed(b.imm as i64);
                } else {
                    self.advance_pc();
                }
                proof {
                    assert(self@ =~~= step_insn(old(self)@, insn, 0u64).unwrap());
                    assert(step_matches(old(self)@, self@, 0u64, Ok::<Option<HaltReason>, Fault>(
                        None,
                    )));
                }
                Ok(None)
            },
            Instruction::Amoswapw(r) => {
                let addr = self.get_reg(r.rs1);
                let mv = match self.load_u32(addr) {
                    Some(x) => x,
                    None => {
                        let f = Fault::Load { pc, addr };
                        proof {
                            assert(step_matches(
                                old(self)@,
                                self@,
                                0u64,
                                Err::<Option<HaltReason>, Fault>(f),
                            ));
                        }
                        return Err(f);
                    },
                };
                let sv = low32(self.get_reg(r.rs2));
                let ok = self.store_u32(addr, sv);
                if !ok {
                    let f = Fault::Store { pc, addr };
                    proof {
                        assert(step_matches(
                            old(self)@,
                            self@,
                            0u64,
                            Err::<Option<HaltReason>, Fault>(f),
                        ));
                    }
                    return Err(f);
                }
                self.set_reg(r.rd, sx32(mv));
                self.advance_pc();
                proof {
                    assert(self@ =~~= step_insn(old(self)@, insn, 0u64).unwrap());
                    assert(step_matches(old(self)@, self@, 0u64, Ok::<Option<HaltReason>, Fault>(
                        None,
                    )));
                }
                Ok(None)
            },
            Instruction::Amoaddw(r) => {
                let addr = self.get_reg(r.rs1);
                let mv = match self.load_u32(addr) {
                    Some(x) => x,
                    None => {
                        let f = Fault::Load { pc, addr };
                        proof {
                            assert(step_matches(
                                old(self)@,
                                self@,
                                0u64,
                                Err::<Option<HaltReason>, Fault>(f),
                            ));
                        }
                        return Err(f);
                    },
                };
                let sv = mv.wrapping_add(low32(self.get_reg(r.rs2)));
                let ok = self.store_u32(addr, sv);
                if !ok {
                    let f = Fault::Store { pc, addr };
                    proof {
                        assert(step_matches(
                            old(self)@,
                            self@,
                            0u64,
                            Err::<Option<HaltReason>, Fault>(f),
                        ));
                    }
                    return Err(f);
                }
                self.set_reg(r.rd, sx32(mv));
                self.advance_pc();
                proof {
                    assert(self@ =~~= step_insn(old(self)@, insn, 0u64).unwrap());
                    assert(step_matches(old(self)@, self@, 0u64, Ok::<Option<HaltReason>, Fault>(
                        None,
                    )));
                }
                Ok(None)
            },
            Instruction::Amoswapd(r) => {
                let addr = self.get_reg(r.rs1);
                let mv = match self.load_u64(addr) {
                    Some(x) => x,
                    None => {
                        let f = Fault::Load { pc, addr };
                        proof {
                            assert(step_matches(
                                old(self)@,
                                self@,
                                0u64,
                                Err::<Option<HaltReason>, Fault>(f),
                            ));
                        }
                        return Err(f);
                    },
                };
                let sv = self.get_reg(r.rs2);
                let ok = self.store_u64(addr, sv);
                if !ok {
                    let f = Fault::Store { pc, addr };
                    proof {
                        assert(step_matches(
                            old(self)@,
                            self@,
                            0u64,
                            Err::<Option<HaltReason>, Fault>(f),
                        ));
                    }
                    return Err(f);
                }
                self.set_reg(r.rd, mv);
                self.advance_pc();
                proof {
                    assert(self@ =~~= step_insn(old(self)@, insn, 0u64).unwrap());
                    assert(step_matches(old(self)@, self@, 0u64, Ok::<Option<HaltReason>, Fault>(
                        None,
                    )));
                }
                Ok(None)
            },
            Instruction::Fence => {
                self.advance_pc();
                proof {
                    assert(step_matches(old(self)@, self@, 0u64, Ok::<Option<HaltReason>, Fault>(
                        None,
                    )));
                }
                Ok(None)
            },
            Instruction::Ebreak => {
                self.advance_pc();
                proof {
                    assert(step_matches(old(self)@, self@, 0u64, Ok::<Option<HaltReason>, Fault>(
                        None,
                    )));
                }
                Ok(None)
            },
            Instruction::Ecall => {
                let f = Fault::Unsupported { pc };
                proof {
                    assert(step_matches(old(self)@, self@, 0u64, Err::<Option<HaltReason>, Fault>(
                        f,
                    )));
                }
                Err(f)
            },
            Instruction::Sret(_) => {
                let f = Fault::Unsupported { pc };
                proof {
                    assert(step_matches(old(self)@, self@, 0u64, Err::<Option<HaltReason>, Fault>(
                        f,
                    )));
                }
                Err(f)
            },
            Instruction::Wfi(_) => {
                let f = Fault::Unsupported { pc };
                proof {
                    assert(step_matches(old(self)@, self@, 0u64, Err::<Option<HaltReason>, Fault>(
                        f,
                    )));
                }
                Err(f)
            },
            Instruction::Invalid(_) => {
                let f = Fault::Unsupported { pc };
                proof {
                    assert(step_matches(old(self)@, self@, 0u64, Err::<Option<HaltReason>, Fault>(
                        f,
                    )));
                }
                Err(f)
            },
        }
    }

    /// Execute up to `maxsteps` instructions. Today a fault-free run
    /// only stops when the budget is spent.
    pub fn run(&mut self, maxsteps: usize) -> (r: Result<HaltReason, Fault>)
        requires
            old(self).wf(),
        ensures
            final(self).wf(),
            r is Ok ==> r->Ok_0 == HaltReason::Steps && exists|ts: Seq<u64>|
                ts.len() == maxsteps && #[trigger] runs_to(old(self)@, final(self)@, ts),
            r is Err ==> exists|ts: Seq<u64>, t: u64|
                ts.len() < maxsteps && #[trigger] runs_to(old(self)@, final(self)@, ts) && (
                #[trigger] step_spec(final(self)@, t)) == Err::<CpuView, Fault>(r->Err_0),
    {
        let mut i: usize = 0;
        proof {
            assert(runs_to(old(self)@, self@, Seq::<u64>::empty()));
        }
        while i < maxsteps
            invariant
                self.wf(),
                i <= maxsteps,
                exists|ts: Seq<u64>|
                    ts.len() == i && #[trigger] runs_to(old(self)@, self@, ts),
            decreases maxsteps - i,
        {
            let ghost pre = self@;
            let ghost ts0 = choose|ts: Seq<u64>| ts.len() == i && #[trigger] runs_to(
                old(self)@,
                pre,
                ts,
            );
            match self.step() {
                Ok(_) => {
                    proof {
                        let t = choose|t: u64| #[trigger] step_matches(pre, self@, t, Ok::<
                            Option<HaltReason>,
                            Fault,
                        >(None));
                        lemma_runs_to_snoc(old(self)@, pre, self@, ts0, t);
                        assert(ts0.push(t).len() == i + 1);
                    }
                },
                Err(f) => {
                    proof {
                        let t = choose|t: u64| #[trigger] step_matches(pre, self@, t, Err::<
                            Option<HaltReason>,
                            Fault,
                        >(f));
                        assert(self@ == pre);
                        assert(step_spec(self@, t) == Err::<CpuView, Fault>(f));
                    }
                    return Err(f);
                },
            }
            i += 1;
        }
        Ok(HaltReason::Steps)
    }
}

} // verus!
